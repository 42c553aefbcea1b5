//! A bounded cursor over an input slice.
//!
//! Every read either consumes exactly the requested bytes or fails with
//! [`DecodeError::UnexpectedEof`] carrying the requested count, the bytes
//! that were left, and the offset — leaving the cursor unchanged.
//!
//! The spec functions [`spec_read_byte`] and [`spec_read_bytes`] are the
//! mathematical counterparts the decoder's specification is written against;
//! [`spec_le_value`] reads a little-endian unsigned value from a byte
//! sequence.

use vstd::prelude::*;
use crate::error::DecodeError;

verus! {

/// The error a read of `need` bytes at `pos` raises when the data is too
/// short.
pub open spec fn spec_eof(data: Seq<u8>, pos: int, need: int) -> DecodeError {
    DecodeError::UnexpectedEof {
        need: need as u64,
        have: (data.len() - pos) as u64,
        offset: pos as u64,
    }
}

/// Reading one byte: the byte at `pos` and the advanced position, or EOF.
pub open spec fn spec_read_byte(data: Seq<u8>, pos: int) -> Result<(u8, int), DecodeError> {
    if pos + 1 <= data.len() {
        Result::Ok((data[pos], pos + 1))
    } else {
        Result::Err(spec_eof(data, pos, 1))
    }
}

/// Reading `n` bytes: the byte run starting at `pos` and the advanced
/// position, or EOF.
pub open spec fn spec_read_bytes(data: Seq<u8>, pos: int, n: int) -> Result<
    (Seq<u8>, int),
    DecodeError,
> {
    if pos + n <= data.len() {
        Result::Ok((data.subrange(pos, pos + n), pos + n))
    } else {
        Result::Err(spec_eof(data, pos, n))
    }
}

/// The unsigned value of a little-endian byte sequence.
pub open spec fn spec_le_value(s: Seq<u8>) -> nat
    decreases s.len(),
{
    if s.len() == 0 {
        0
    } else {
        (s[0] + 256 * spec_le_value(s.subrange(1, s.len() as int))) as nat
    }
}

/// 256 to the `n`th power: the number of values `n` bytes can hold.
pub open spec fn pow256(n: nat) -> nat
    decreases n,
{
    if n == 0 {
        1
    } else {
        256 * pow256((n - 1) as nat)
    }
}

/// A little-endian byte sequence holds a value below `256^len`.
pub proof fn lemma_le_value_bound(s: Seq<u8>)
    ensures
        spec_le_value(s) < pow256(s.len()),
    decreases s.len(),
{
    if s.len() > 0 {
        let t = s.subrange(1, s.len() as int);
        lemma_le_value_bound(t);
        assert(256 * spec_le_value(t) <= 256 * (pow256(t.len()) - 1)) by (nonlinear_arith)
            requires
                spec_le_value(t) <= pow256(t.len()) - 1,
        ;
    }
}

/// A mutable bounded view over an input slice.
pub struct ByteCursor<'a> {
    data: &'a [u8],
    pos: usize,
}

impl<'a> ByteCursor<'a> {
    /// The bytes the cursor ranges over.
    pub closed spec fn spec_data(&self) -> Seq<u8> {
        self.data@
    }

    /// The current offset into the data.
    pub closed spec fn spec_pos(&self) -> int {
        self.pos as int
    }

    /// The cursor's position never passes the end of the data.
    pub closed spec fn wf(&self) -> bool {
        self.pos <= self.data@.len()
    }

    /// A cursor at the start of `data`.
    pub fn new(data: &'a [u8]) -> (r: ByteCursor<'a>)
        ensures
            r.wf(),
            r.spec_data() == data@,
            r.spec_pos() == 0,
    {
        ByteCursor { data, pos: 0 }
    }

    /// The current offset.
    pub fn offset(&self) -> (r: usize)
        ensures
            r == self.spec_pos(),
    {
        self.pos
    }

    /// How many bytes are left.
    pub fn remaining(&self) -> (r: usize)
        requires
            self.wf(),
        ensures
            r == self.spec_data().len() - self.spec_pos(),
    {
        self.data.len() - self.pos
    }

    /// Read one byte, advancing by one.
    pub fn read_byte(&mut self) -> (r: Result<u8, DecodeError>)
        requires
            old(self).wf(),
        ensures
            final(self).wf(),
            final(self).spec_data() == old(self).spec_data(),
            match spec_read_byte(old(self).spec_data(), old(self).spec_pos()) {
                Result::Ok((b, p)) => r == Result::<u8, DecodeError>::Ok(b) && final(self).spec_pos() == p,
                Result::Err(e) => r == Result::<u8, DecodeError>::Err(e) && final(self).spec_pos() == old(self).spec_pos(),
            },
    {
        if self.pos < self.data.len() {
            let b = self.data[self.pos];
            self.pos = self.pos + 1;
            Result::Ok(b)
        } else {
            Result::Err(
                DecodeError::UnexpectedEof {
                    need: 1,
                    have: (self.data.len() - self.pos) as u64,
                    offset: self.pos as u64,
                },
            )
        }
    }

    /// Read exactly `n` bytes, advancing by `n`.
    pub fn read_fixed(&mut self, n: usize) -> (r: Result<Vec<u8>, DecodeError>)
        requires
            old(self).wf(),
        ensures
            final(self).wf(),
            final(self).spec_data() == old(self).spec_data(),
            match spec_read_bytes(old(self).spec_data(), old(self).spec_pos(), n as int) {
                Result::Ok((bs, p)) => r matches Result::Ok(v) && v@ == bs && final(self).spec_pos() == p,
                Result::Err(e) => r == Result::<Vec<u8>, DecodeError>::Err(e) && final(self).spec_pos() == old(self).spec_pos(),
            },
            r matches Result::Ok(v) ==> old(self).spec_pos() + n <= old(self).spec_data().len()
                && v@ == old(self).spec_data().subrange(
                old(self).spec_pos(),
                old(self).spec_pos() + n as int,
            ) && v@.len() == n && final(self).spec_pos() == old(self).spec_pos() + n,
    {
        if n <= self.data.len() - self.pos {
            let end: usize = self.pos + n;
            let mut out: Vec<u8> = Vec::new();
            let mut i: usize = 0;
            while i < n
                invariant
                    0 <= i <= n,
                    end == self.pos + n,
                    self.pos + n <= self.data@.len(),
                    out@ =~= self.data@.subrange(self.spec_pos(), self.spec_pos() + i as int),
                decreases n - i,
            {
                out.push(self.data[self.pos + i]);
                i = i + 1;
            }
            self.pos = self.pos + n;
            Result::Ok(out)
        } else {
            Result::Err(
                DecodeError::UnexpectedEof {
                    need: n as u64,
                    have: (self.data.len() - self.pos) as u64,
                    offset: self.pos as u64,
                },
            )
        }
    }
}

/// Fixed-width little-endian reads, built on [`ByteCursor::read_fixed`].
impl<'a> ByteCursor<'a> {
    /// Read a little-endian `u16`.
    pub fn read_u16_le(&mut self) -> (r: Result<u16, DecodeError>)
        requires
            old(self).wf(),
        ensures
            final(self).wf(),
            final(self).spec_data() == old(self).spec_data(),
            match spec_read_bytes(old(self).spec_data(), old(self).spec_pos(), 2) {
                Result::Ok((bs, p)) => r == Result::<u16, DecodeError>::Ok(
                    spec_le_value(bs) as u16,
                ) && final(self).spec_pos() == p,
                Result::Err(e) => r == Result::<u16, DecodeError>::Err(e),
            },
    {
        let bs = match self.read_fixed(2) {
            Result::Ok(bs) => bs,
            Result::Err(e) => { return Result::Err(e); },
        };
        proof {
            lemma_le_value_bound(bs@);
            reveal_with_fuel(pow256, 3);
        }
        Result::Ok(le_value_prefix(&bs, 2) as u16)
    }

    /// Read a little-endian `u32`.
    pub fn read_u32_le(&mut self) -> (r: Result<u32, DecodeError>)
        requires
            old(self).wf(),
        ensures
            final(self).wf(),
            final(self).spec_data() == old(self).spec_data(),
            match spec_read_bytes(old(self).spec_data(), old(self).spec_pos(), 4) {
                Result::Ok((bs, p)) => r == Result::<u32, DecodeError>::Ok(
                    spec_le_value(bs) as u32,
                ) && final(self).spec_pos() == p,
                Result::Err(e) => r == Result::<u32, DecodeError>::Err(e),
            },
    {
        let bs = match self.read_fixed(4) {
            Result::Ok(bs) => bs,
            Result::Err(e) => { return Result::Err(e); },
        };
        proof {
            lemma_le_value_bound(bs@);
            reveal_with_fuel(pow256, 5);
        }
        Result::Ok(le_value_prefix(&bs, 4) as u32)
    }

    /// Read a little-endian `u64`.
    pub fn read_u64_le(&mut self) -> (r: Result<u64, DecodeError>)
        requires
            old(self).wf(),
        ensures
            final(self).wf(),
            final(self).spec_data() == old(self).spec_data(),
            match spec_read_bytes(old(self).spec_data(), old(self).spec_pos(), 8) {
                Result::Ok((bs, p)) => r == Result::<u64, DecodeError>::Ok(
                    spec_le_value(bs) as u64,
                ) && final(self).spec_pos() == p,
                Result::Err(e) => r == Result::<u64, DecodeError>::Err(e),
            },
    {
        let bs = match self.read_fixed(8) {
            Result::Ok(bs) => bs,
            Result::Err(e) => { return Result::Err(e); },
        };
        proof {
            lemma_le_value_bound(bs@);
            reveal_with_fuel(pow256, 9);
        }
        Result::Ok(le_value_prefix(&bs, 8) as u64)
    }

    /// Read a little-endian `u128`.
    pub fn read_u128_le(&mut self) -> (r: Result<u128, DecodeError>)
        requires
            old(self).wf(),
        ensures
            final(self).wf(),
            final(self).spec_data() == old(self).spec_data(),
            match spec_read_bytes(old(self).spec_data(), old(self).spec_pos(), 16) {
                Result::Ok((bs, p)) => r == Result::<u128, DecodeError>::Ok(
                    spec_le_value(bs) as u128,
                ) && final(self).spec_pos() == p,
                Result::Err(e) => r == Result::<u128, DecodeError>::Err(e),
            },
    {
        let bs = match self.read_fixed(16) {
            Result::Ok(bs) => bs,
            Result::Err(e) => { return Result::Err(e); },
        };
        proof {
            lemma_le_value_bound(bs@);
            reveal_with_fuel(pow256, 17);
        }
        Result::Ok(le_value_prefix(&bs, 16) as u128)
    }
}

/// The value of the first `w` bytes of the payload, as a 128-bit integer.
pub fn le_value_prefix(payload: &Vec<u8>, w: usize) -> (r: u128)
    requires
        w <= 16,
    ensures
        r == (if payload@.len() <= w as int {
            spec_le_value(payload@)
        } else {
            spec_le_value(payload@.subrange(0, w as int))
        }),
{
    let m: usize = if payload.len() <= w {
        payload.len()
    } else {
        w
    };
    let ghost target: Seq<u8> = if payload@.len() <= w as int {
        payload@
    } else {
        payload@.subrange(0, w as int)
    };
    proof {
        assert(target =~= payload@.subrange(0, m as int));
    }
    let mut v: u128 = 0;
    let mut i: usize = m;
    while i > 0
        invariant
            0 <= i <= m,
            m <= 16,
            m <= payload.len(),
            target =~= payload@.subrange(0, m as int),
            v == spec_le_value(payload@.subrange(i as int, m as int)),
            v < pow256((m - i) as nat),
        decreases i,
    {
        let ghost k = (m - i) as nat;
        let ghost v0 = v as int;
        proof {
            lemma_pow256_le(k, 15);
            reveal_with_fuel(pow256, 17);
            assert(pow256(16) == 0x100000000000000000000000000000000);
            assert(v0 * 256 <= (pow256(15) - 1) * 256) by (nonlinear_arith)
                requires
                    0 <= v0 <= pow256(15) - 1,
            ;
        }
        let b = payload[i - 1];
        v = v * 256 + b as u128;
        i = i - 1;
        proof {
            let s = payload@.subrange(i as int, m as int);
            assert(s[0] == payload@[i as int]);
            assert(s.subrange(1, s.len() as int) =~= payload@.subrange(i + 1, m as int));
            assert(v == v0 * 256 + payload@[i as int]);
            assert(spec_le_value(s) == payload@[i as int] + 256 * spec_le_value(
                payload@.subrange(i + 1, m as int),
            ));
            assert(v0 * 256 == 256 * v0) by (nonlinear_arith);
            assert(pow256((k + 1) as nat) == 256 * pow256(k));
            assert(v0 * 256 + 255 < 256 * pow256(k)) by (nonlinear_arith)
                requires
                    0 <= v0 < pow256(k),
            ;
            assert((m - i) as nat == k + 1);
        }
    }
    proof {
        assert(payload@.subrange(0, m as int) == target);
    }
    v
}

/// `pow256` is monotone in its exponent.
pub proof fn lemma_pow256_le(a: nat, b: nat)
    requires
        a <= b,
    ensures
        pow256(a) <= pow256(b),
    decreases b,
{
    if a < b {
        lemma_pow256_le(a, (b - 1) as nat);
        assert(pow256(b) == 256 * pow256((b - 1) as nat));
        assert(256 * pow256((b - 1) as nat) >= pow256((b - 1) as nat)) by (nonlinear_arith)
            requires
                pow256((b - 1) as nat) >= 0,
        ;
    }
}

} // verus!
