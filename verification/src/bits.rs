//! MSB-first bit cursor over a byte buffer.
//!
//! Both the MPEG-2 clock fields and the VobSub run-length codes are
//! bit-packed, so every bit-level parser of the library is layered on this
//! one primitive.  The mathematical meaning of a run of bits is given by
//! `bits_val`, and `BitReader::read_bits` is proved to return exactly that
//! value.

use vstd::arithmetic::div_mod::lemma_fundamental_div_mod_converse;
use vstd::arithmetic::power2::{
    lemma2_to64,
    lemma2_to64_rest,
    lemma_pow2_strictly_increases,
    lemma_pow2_unfold,
    pow2,
};
use vstd::prelude::*;

verus! {

/// The bit of `bytes` at absolute bit position `i`, counting from the most
/// significant bit of byte 0: either 0 or 1.
pub open spec fn spec_bit(bytes: Seq<u8>, i: int) -> u8
    recommends
        0 <= i < 8 * bytes.len(),
{
    (bytes[i / 8] >> ((7 - i % 8) as u8)) & 1
}

/// The unsigned integer read MSB-first from the `n` bits of `bytes` that
/// start at absolute bit position `start`.
pub open spec fn bits_val(bytes: Seq<u8>, start: int, n: nat) -> nat
    decreases n,
{
    if n == 0 {
        0
    } else {
        bits_val(bytes, start, (n - 1) as nat) * 2 + spec_bit(bytes, start + n - 1) as nat
    }
}

/// A single bit is at most 1.
proof fn lemma_bit_le_one(bytes: Seq<u8>, i: int)
    ensures
        spec_bit(bytes, i) <= 1,
{
    let b = bytes[i / 8];
    let k = (7 - i % 8) as u8;
    assert((b >> k) & 1 <= 1) by (bit_vector);
}

/// The value of `n` bits is below `pow2(n)`.
pub proof fn lemma_bits_val_bound(bytes: Seq<u8>, start: int, n: nat)
    ensures
        bits_val(bytes, start, n) < pow2(n),
    decreases n,
{
    if n == 0 {
        lemma2_to64();
    } else {
        lemma_bits_val_bound(bytes, start, (n - 1) as nat);
        lemma_bit_le_one(bytes, start + n - 1);
        lemma_pow2_unfold(n);
    }
}

/// The big-endian 16-bit value of the two bytes at byte offset `i`.
pub open spec fn spec_be16(data: Seq<u8>, i: int) -> nat
    recommends
        0 <= i && i + 2 <= data.len(),
{
    data[i] as nat * 256 + data[i + 1] as nat
}

/// Read the big-endian 16-bit value at byte offset `i`.
pub fn read_be16(data: &[u8], i: usize) -> (r: u16)
    requires
        i + 2 <= data@.len(),
    ensures
        r as nat == spec_be16(data@, i as int),
{
    (data[i] as u16) * 256 + (data[i + 1] as u16)
}

/// The big-endian 32-bit value of the four bytes at byte offset `i`.
pub open spec fn spec_be32(data: Seq<u8>, i: int) -> nat
    recommends
        0 <= i && i + 4 <= data.len(),
{
    data[i] as nat * 0x100_0000 + data[i + 1] as nat * 0x1_0000 + data[i + 2] as nat * 0x100 + data[
        i + 3
    ] as nat
}

/// Read the big-endian 32-bit value at byte offset `i`.
pub fn read_be32(data: &[u8], i: usize) -> (r: u32)
    requires
        i + 4 <= data@.len(),
    ensures
        r as nat == spec_be32(data@, i as int),
{
    (data[i] as u32) * 0x100_0000 + (data[i + 1] as u32) * 0x1_0000 + (data[i + 2] as u32) * 0x100
        + (data[i + 3] as u32)
}

/// A single-bit run is just that bit.
pub proof fn lemma_bits_val_one(bytes: Seq<u8>, i: int)
    ensures
        bits_val(bytes, i, 1) == spec_bit(bytes, i),
{
    reveal_with_fuel(bits_val, 2);
}

/// A cursor into a byte buffer with bit granularity, reading MSB-first.
pub struct BitReader<'a> {
    bytes: &'a [u8],
    byte_idx: usize,
    bit_idx: usize,
}

impl<'a> BitReader<'a> {
    /// The bytes the cursor reads from.
    pub closed spec fn spec_data(self) -> Seq<u8> {
        self.bytes@
    }

    /// The absolute bit position of the cursor.
    pub closed spec fn spec_pos(self) -> int {
        8 * self.byte_idx + self.bit_idx
    }

    /// Internal consistency: the sub-byte offset stays below 8 and the byte
    /// offset stays within the buffer; a cursor in the middle of a byte
    /// always stands in an existing byte.
    pub closed spec fn wf(self) -> bool {
        &&& self.bit_idx < 8
        &&& self.byte_idx <= self.bytes@.len()
        &&& (self.bit_idx != 0 ==> self.byte_idx < self.bytes@.len())
    }

    /// A cursor at the very start of `bytes`.
    pub fn new(bytes: &'a [u8]) -> (r: Self)
        ensures
            r.wf(),
            r.spec_data() == bytes@,
            r.spec_pos() == 0,
    {
        BitReader { bytes, byte_idx: 0, bit_idx: 0 }
    }

    /// A cursor positioned at bit `bit_idx` of byte `byte_idx` of `bytes`.
    pub fn new_at(bytes: &'a [u8], byte_idx: usize, bit_idx: usize) -> (r: Self)
        requires
            bit_idx < 8,
            byte_idx <= bytes@.len(),
            bit_idx != 0 ==> byte_idx < bytes@.len(),
        ensures
            r.wf(),
            r.spec_data() == bytes@,
            r.spec_pos() == 8 * byte_idx + bit_idx,
    {
        BitReader { bytes, byte_idx, bit_idx }
    }

    /// How many whole bytes the cursor has passed; the byte the cursor
    /// stands in counts as passed as soon as one of its bits is consumed.
    pub fn bytes_consumed(&self) -> (r: usize)
        requires
            self.wf(),
        ensures
            r == if self.spec_pos() % 8 == 0 {
                self.spec_pos() / 8
            } else {
                self.spec_pos() / 8 + 1
            },
            r <= self.spec_data().len(),
    {
        proof {
            lemma_fundamental_div_mod_converse(
                self.spec_pos(),
                8,
                self.byte_idx as int,
                self.bit_idx as int,
            );
        }
        if self.bit_idx == 0 {
            self.byte_idx
        } else {
            let len = self.bytes.len();
            assert(self.byte_idx < len);
            self.byte_idx + 1
        }
    }

    /// Read the next `n` bits MSB-first, advancing the cursor.  Returns
    /// `None`, leaving the data unchanged, when fewer than `n` bits remain.
    pub fn read_bits(&mut self, n: usize) -> (r: Option<u64>)
        requires
            old(self).wf(),
            n <= 64,
        ensures
            final(self).wf(),
            final(self).spec_data() == old(self).spec_data(),
            match r {
                Some(v) => {
                    &&& old(self).spec_pos() + n <= 8 * old(self).spec_data().len()
                    &&& v == bits_val(old(self).spec_data(), old(self).spec_pos(), n as nat)
                    &&& v < pow2(n as nat)
                    &&& final(self).spec_pos() == old(self).spec_pos() + n
                },
                None => 8 * old(self).spec_data().len() < old(self).spec_pos() + n,
            },
    {
        let ghost data = old(self).spec_data();
        let ghost start = old(self).spec_pos();
        let mut acc: u64 = 0;
        let mut i: usize = 0;
        proof {
            lemma2_to64();
            lemma2_to64_rest();
        }
        while i < n
            invariant
                self.wf(),
                self.bytes@ == data,
                data == old(self).spec_data(),
                start == old(self).spec_pos(),
                i <= n <= 64,
                self.spec_pos() == start + i,
                acc == bits_val(data, start, i as nat),
                acc < pow2(i as nat),
                pow2(64) == 0x10000000000000000,
            decreases n - i,
        {
            if self.byte_idx >= self.bytes.len() {
                // Out of data: the remaining bits cannot be served.
                return None;
            }
            let b = self.bytes[self.byte_idx];
            let shift: usize = 7 - self.bit_idx;
            let bit: u8 = (b >> (shift as u8)) & 1;
            proof {
                lemma_fundamental_div_mod_converse(
                    start + i,
                    8,
                    self.byte_idx as int,
                    self.bit_idx as int,
                );
                assert(bit == spec_bit(data, start + i));
                lemma_bit_le_one(data, start + i);
                lemma_pow2_unfold((i + 1) as nat);
                if i + 1 < 64 {
                    lemma_pow2_strictly_increases((i + 1) as nat, 64);
                }
            }
            acc = acc * 2 + (bit as u64);
            if self.bit_idx == 7 {
                self.bit_idx = 0;
                self.byte_idx = self.byte_idx + 1;
            } else {
                self.bit_idx = self.bit_idx + 1;
            }
            i = i + 1;
        }
        Some(acc)
    }

    /// Read `n` bits and check them against an expected tag value.  Returns
    /// `Some(true)` when the bits match, `Some(false)` when they differ, and
    /// `None` when the data runs out.
    pub fn expect_bits(&mut self, n: usize, expected: u64) -> (r: Option<bool>)
        requires
            old(self).wf(),
            n <= 64,
        ensures
            final(self).wf(),
            final(self).spec_data() == old(self).spec_data(),
            match r {
                Some(m) => {
                    &&& old(self).spec_pos() + n <= 8 * old(self).spec_data().len()
                    &&& m == (bits_val(old(self).spec_data(), old(self).spec_pos(), n as nat)
                        == expected)
                    &&& final(self).spec_pos() == old(self).spec_pos() + n
                },
                None => 8 * old(self).spec_data().len() < old(self).spec_pos() + n,
            },
    {
        match self.read_bits(n) {
            Some(v) => Some(v == expected),
            None => None,
        }
    }
}

} // verus!
