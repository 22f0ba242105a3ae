//! A positionable bit-level reader over a byte buffer.
//!
//! Bits are counted from the start of the buffer, most-significant bit of
//! each byte first, matching the packing order of the coded bitstream.
//! Every read or skip that would advance past the buffer's declared length
//! fails with [`A52Error::OutOfBits`] and leaves the cursor where it was.

use vstd::prelude::*;
use vstd::arithmetic::power2::{lemma2_to64, lemma_pow2_adds, lemma_pow2_strictly_increases, pow2};

use crate::A52Error;

verus! {

/// Upper bound on the byte length of a buffer a cursor can be attached to.
/// Keeps every bit position comfortably inside `u32` and `usize` range; a
/// coded frame is a few kilobytes at most.
pub const MAX_FRAME_BYTES: usize = 0x100_0000;

/// Whether positions `pos..pos + n` are all inside the buffer `b`.
pub open spec fn bit_ok(b: Seq<u8>, pos: int, n: int) -> bool {
    0 <= pos && 0 <= n && pos + n <= 8 * b.len()
}

/// The bit of `b` at position `i`: bit `7 - i % 8` of byte `i / 8`.
pub open spec fn bit_at(b: Seq<u8>, i: int) -> u32 {
    ((b[i / 8] as u32) >> ((7 - (i % 8)) as u32)) & 1
}

/// The unsigned value of the `n` bits of `b` starting at position `pos`,
/// most-significant bit first.
pub open spec fn bits_val(b: Seq<u8>, pos: int, n: nat) -> int
    decreases n,
{
    if n == 0 {
        0
    } else {
        2 * bits_val(b, pos, (n - 1) as nat) + bit_at(b, pos + n - 1)
    }
}

/// A field of `n` bits always holds a value in `0 .. 2^n`.
pub proof fn lemma_bits_val_bound(b: Seq<u8>, pos: int, n: nat)
    ensures
        0 <= bits_val(b, pos, n) < pow2(n),
    decreases n,
{
    if n == 0 {
        lemma2_to64();
    } else {
        lemma_bits_val_bound(b, pos, (n - 1) as nat);
        let x = b[(pos + n - 1) / 8] as u32;
        let s = (7 - ((pos + n - 1) % 8)) as u32;
        assert((x >> s) & 1 <= 1) by (bit_vector);
        lemma_pow2_adds(1, (n - 1) as nat);
        lemma2_to64();
    }
}

/// `1 << k` is `2^k` for shifts inside a `u32`.
pub proof fn lemma_shift_is_pow2(k: u32)
    requires
        k < 32,
    ensures
        (1u32 << k) as int == pow2(k as nat),
    decreases k,
{
    if k == 0 {
        assert((1u32 << 0) == 1) by (bit_vector);
        lemma2_to64();
    } else {
        lemma_shift_is_pow2((k - 1) as u32);
        let j = k;
        let jm = (k - 1) as u32;
        assert(j == jm + 1 && jm < 31 ==> (1u32 << j) == 2 * (1u32 << jm)) by (bit_vector);
        lemma_pow2_adds(1, (k - 1) as nat);
        lemma2_to64();
    }
}

/// A positionable bit-level reader: a byte-buffer reference plus a bit
/// offset.  The offset only moves forward; it is reset by attaching a new
/// buffer.
pub struct BitCursor<'a> {
    buf: &'a [u8],
    pos: usize,
}

impl<'a> BitCursor<'a> {
    /// The bytes the cursor reads from.
    pub closed spec fn bytes(self) -> Seq<u8> {
        self.buf@
    }

    /// The current bit position.
    pub closed spec fn position(self) -> int {
        self.pos as int
    }

    /// The cursor never points past the end of its buffer.
    pub closed spec fn wf(self) -> bool {
        &&& self.buf@.len() <= MAX_FRAME_BYTES
        &&& self.pos <= 8 * self.buf@.len()
    }

    /// Attaches the cursor to `buf`, resetting the position to the start.
    pub fn attach(buf: &'a [u8]) -> (c: Self)
        requires
            buf@.len() <= MAX_FRAME_BYTES,
        ensures
            c.wf(),
            c.bytes() == buf@,
            c.position() == 0,
    {
        BitCursor { buf, pos: 0 }
    }

    /// The current bit offset from the start of the attached buffer.
    pub fn offset(&self) -> (r: usize)
        ensures
            r as int == self.position(),
    {
        self.pos
    }

    /// Consumes the next `n` bits, most-significant bit first, and returns
    /// them as an unsigned integer; fails without moving if fewer than `n`
    /// bits remain.
    pub fn read(&mut self, n: u32) -> (r: Result<u32, A52Error>)
        requires
            old(self).wf(),
            1 <= n <= 32,
        ensures
            final(self).wf(),
            final(self).bytes() == old(self).bytes(),
            bit_ok(old(self).bytes(), old(self).position(), n as int) ==> (r matches Ok(v)
                && v as int == bits_val(old(self).bytes(), old(self).position(), n as nat)
                && final(self).position() == old(self).position() + n),
            !bit_ok(old(self).bytes(), old(self).position(), n as int) ==> (r == Err::<
                u32,
                A52Error,
            >(A52Error::OutOfBits) && final(self).position() == old(self).position()),
    {
        let ghost b = self.buf@;
        let ghost pos0 = self.pos as int;
        if (n as usize) > self.buf.len() * 8 - self.pos {
            return Err(A52Error::OutOfBits);
        }
        let mut i: u32 = 0;
        let mut acc: u32 = 0;
        proof {
            lemma2_to64();
        }
        while i < n
            invariant
                i <= n,
                n <= 32,
                self.buf@ == b,
                b.len() <= MAX_FRAME_BYTES,
                pos0 + n <= 8 * b.len(),
                0 <= pos0,
                self.pos as int == pos0 + i,
                acc as int == bits_val(b, pos0, i as nat),
                acc < pow2(i as nat),
            decreases n - i,
        {
            proof {
                if (i as nat) < 31 {
                    lemma_pow2_strictly_increases(i as nat, 31);
                }
                lemma2_to64();
            }
            let byte = self.buf[self.pos / 8];
            let shift: u32 = 7 - (self.pos % 8) as u32;
            let bit: u32 = ((byte as u32) >> shift) & 1;
            proof {
                let bv = byte as u32;
                let sh = shift;
                assert((bv >> sh) & 1 <= 1) by (bit_vector);
                assert(bit == bit_at(b, pos0 + i));
                lemma_pow2_adds(1, i as nat);
            }
            acc = acc * 2 + bit;
            self.pos = self.pos + 1;
            i = i + 1;
        }
        Ok(acc)
    }

    /// `read(1)` interpreted as a flag.
    pub fn read_bool(&mut self) -> (r: Result<bool, A52Error>)
        requires
            old(self).wf(),
        ensures
            final(self).wf(),
            final(self).bytes() == old(self).bytes(),
            bit_ok(old(self).bytes(), old(self).position(), 1) ==> (r matches Ok(v) && v == (
            bits_val(old(self).bytes(), old(self).position(), 1) == 1) && final(self).position()
                == old(self).position() + 1),
            !bit_ok(old(self).bytes(), old(self).position(), 1) ==> (r == Err::<bool, A52Error>(
                A52Error::OutOfBits,
            ) && final(self).position() == old(self).position()),
    {
        proof {
            lemma_bits_val_bound(self.buf@, self.pos as int, 1);
            lemma2_to64();
        }
        match self.read(1) {
            Ok(v) => Ok(v != 0),
            Err(e) => Err(e),
        }
    }

    /// `read(n)` with the result sign-extended from `n` bits.
    pub fn read_signed(&mut self, n: u32) -> (r: Result<i32, A52Error>)
        requires
            old(self).wf(),
            1 <= n <= 32,
        ensures
            final(self).wf(),
            final(self).bytes() == old(self).bytes(),
            bit_ok(old(self).bytes(), old(self).position(), n as int) ==> (r matches Ok(v)
                && v as int == {
                let u = bits_val(old(self).bytes(), old(self).position(), n as nat);
                if u >= pow2((n - 1) as nat) {
                    u - pow2(n as nat)
                } else {
                    u
                }
            } && final(self).position() == old(self).position() + n),
            !bit_ok(old(self).bytes(), old(self).position(), n as int) ==> (r == Err::<
                i32,
                A52Error,
            >(A52Error::OutOfBits) && final(self).position() == old(self).position()),
    {
        proof {
            lemma_bits_val_bound(self.buf@, self.pos as int, n as nat);
        }
        let v = match self.read(n) {
            Ok(v) => v,
            Err(e) => {
                return Err(e);
            },
        };
        if n == 32 {
            proof {
                lemma2_to64();
                let w = v;
                assert(w >= 0x8000_0000 ==> w as i32 == w - 0x1_0000_0000) by (bit_vector);
                assert(w < 0x8000_0000 ==> w as i32 == w) by (bit_vector);
            }
            Ok(v as i32)
        } else {
            proof {
                lemma_shift_is_pow2((n - 1) as u32);
                lemma_pow2_adds(1, (n - 1) as nat);
                lemma2_to64();
                lemma_pow2_strictly_increases((n - 1) as nat, 31);
            }
            let half: u32 = 1u32 << (n - 1);
            if v >= half {
                Ok(((v as i64) - (half as i64) - (half as i64)) as i32)
            } else {
                Ok(v as i32)
            }
        }
    }

    /// Advances the position by `n` bits without materializing a value;
    /// fails without moving if fewer than `n` bits remain.
    pub fn skip(&mut self, n: u32) -> (r: Result<(), A52Error>)
        requires
            old(self).wf(),
        ensures
            final(self).wf(),
            final(self).bytes() == old(self).bytes(),
            bit_ok(old(self).bytes(), old(self).position(), n as int) ==> (r is Ok
                && final(self).position() == old(self).position() + n),
            !bit_ok(old(self).bytes(), old(self).position(), n as int) ==> (r == Err::<
                (),
                A52Error,
            >(A52Error::OutOfBits) && final(self).position() == old(self).position()),
    {
        if (n as usize) <= self.buf.len() * 8 - self.pos {
            self.pos = self.pos + n as usize;
            Ok(())
        } else {
            Err(A52Error::OutOfBits)
        }
    }
}

/// Reorders the four bytes of a 32-bit word: the stream's words are
/// big-endian, and the word-fetch path converts them to host order on
/// little-endian machines.
pub fn swab32(x: u32) -> (r: u32)
    ensures
        r & 0xff == (x >> 24) & 0xff,
        (r >> 8) & 0xff == (x >> 16) & 0xff,
        (r >> 16) & 0xff == (x >> 8) & 0xff,
        (r >> 24) & 0xff == x & 0xff,
{
    let r = ((x >> 24) & 0xff) | (((x >> 16) & 0xff) << 8) | (((x >> 8) & 0xff) << 16) | ((x
        & 0xff) << 24);
    proof {
        let y = x;
        let z = r;
        assert(z & 0xff == (y >> 24) & 0xff && (z >> 8) & 0xff == (y >> 16) & 0xff && (z >> 16)
            & 0xff == (y >> 8) & 0xff && (z >> 24) & 0xff == y & 0xff) by (bit_vector)
            requires
                z == ((y >> 24) & 0xff) | (((y >> 16) & 0xff) << 8) | (((y >> 8) & 0xff) << 16) | ((
                y & 0xff) << 24),
        ;
    }
    r
}

} // verus!
