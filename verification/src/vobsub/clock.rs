//! The MPEG-2 System Time Clock: a 33-bit 90 kHz counter with a 9-bit
//! extension, and its bit-level parsers.

use crate::bits::{bits_val, spec_bit, BitReader};
use crate::vobsub::ParseError;
use vstd::prelude::*;

verus! {

/// This represents the 90 kHz, 33-bit System Time Clock (`STC`) and the
/// 9-bit `STC` extension value, which counts 1/300th of a tick.
///
/// The packed layout keeps the base in the high bits and the extension in
/// the 9 low bits.
#[derive(Debug, Clone, Copy, PartialEq, Eq, Structural, PartialOrd, Ord)]
pub struct Clock {
    value: u64,
}

impl Clock {
    /// The packed clock word: base ticks shifted up 9 bits, extension below.
    pub closed spec fn spec_value(self) -> u64 {
        self.value
    }

    /// The 33-bit base tick count stored in the clock.
    pub open spec fn spec_base(self) -> u64 {
        self.spec_value() >> 9
    }

    /// Given a 33-bit System Time Clock value, construct a new `Clock`.
    pub fn base(stc: u64) -> (r: Self)
        ensures
            r.spec_value() == stc << 9,
            stc < 0x2_0000_0000 ==> r.spec_value() == stc * 512 && r.spec_base() == stc,
    {
        proof {
            let s = stc;
            assert(s < 0x2_0000_0000 ==> (s << 9) == s * 512 && ((s << 9) >> 9) == s)
                by (bit_vector);
        }
        Clock { value: stc << 9 }
    }

    /// Return a new `Clock` value with the low extension bits replaced by
    /// `ext`.  As in the stream format, only the low 5 bits of the previous
    /// extension are cleared before `ext` is merged in.
    pub fn with_ext(self, ext: u16) -> (r: Self)
        ensures
            r.spec_value() == (self.spec_value() & !0x1f) | (ext as u64),
            (self.spec_value() & 0x1ff == 0 && ext < 512) ==> r.spec_value() == self.spec_value()
                + ext && r.spec_base() == self.spec_base(),
    {
        proof {
            let v = self.value;
            let e = ext as u64;
            assert((v & 0x1ff == 0 && e < 512) ==> ((v & !0x1f) | e) == v + e && ((v & !0x1f) | e)
                >> 9 == v >> 9) by (bit_vector);
        }
        Clock { value: self.value & !0x1f | (ext as u64) }
    }

    /// The presentation time of the clock in whole milliseconds: the 33-bit
    /// base divided by 90 (the extension is below a millisecond).
    pub fn as_msecs(self) -> (r: u64)
        ensures
            r == self.spec_base() / 90,
    {
        (self.value >> 9) / 90
    }
}

/// The 33-bit base value spread over the three bit fields of a serialized
/// clock: 3 high bits, 15 middle bits and 15 low bits, each followed by a
/// marker bit.
pub open spec fn spec_clock_base(data: Seq<u8>, pos: int) -> nat {
    bits_val(data, pos, 3) * 0x4000_0000 + bits_val(data, pos + 4, 15) * 0x8000 + bits_val(
        data,
        pos + 20,
        15,
    )
}

/// A serialized clock base fits in 33 bits.
pub proof fn lemma_clock_base_bound(data: Seq<u8>, pos: int)
    ensures
        spec_clock_base(data, pos) < 0x2_0000_0000,
{
    crate::bits::lemma_bits_val_bound(data, pos, 3);
    crate::bits::lemma_bits_val_bound(data, pos + 4, 15);
    crate::bits::lemma_bits_val_bound(data, pos + 20, 15);
    vstd::arithmetic::power2::lemma2_to64();
}

/// The three marker bits that punctuate a serialized clock are all 1.
pub open spec fn spec_clock_markers_ok(data: Seq<u8>, pos: int) -> bool {
    spec_bit(data, pos + 3) == 1 && spec_bit(data, pos + 19) == 1 && spec_bit(data, pos + 35) == 1
}

/// Parse a 33-bit `Clock` value with 3 marker bits, consuming 36 bits.
pub fn clock(r: &mut BitReader) -> (res: Result<Clock, ParseError>)
    requires
        old(r).wf(),
    ensures
        final(r).wf(),
        final(r).spec_data() == old(r).spec_data(),
        res is Ok <==> old(r).spec_pos() + 36 <= 8 * old(r).spec_data().len()
            && spec_clock_markers_ok(old(r).spec_data(), old(r).spec_pos()),
        res is Ok ==> {
            &&& final(r).spec_pos() == old(r).spec_pos() + 36
            &&& res->Ok_0.spec_base() == spec_clock_base(old(r).spec_data(), old(r).spec_pos())
            &&& res->Ok_0.spec_value() == spec_clock_base(old(r).spec_data(), old(r).spec_pos())
                * 512
        },
        res == Err::<Clock, ParseError>(ParseError::Incomplete) ==> 8 * old(r).spec_data().len()
            < old(r).spec_pos() + 36,
        res == Err::<Clock, ParseError>(ParseError::Invalid) ==> !spec_clock_markers_ok(
            old(r).spec_data(),
            old(r).spec_pos(),
        ),
{
    let hi = match r.read_bits(3) {
        Some(v) => v,
        None => {
            return Err(ParseError::Incomplete);
        },
    };
    match r.expect_bits(1, 1) {
        Some(true) => {},
        Some(false) => {
            proof {
                crate::bits::lemma_bits_val_one(old(r).spec_data(), old(r).spec_pos() + 3);
            }
            return Err(ParseError::Invalid);
        },
        None => {
            return Err(ParseError::Incomplete);
        },
    };
    let mid = match r.read_bits(15) {
        Some(v) => v,
        None => {
            return Err(ParseError::Incomplete);
        },
    };
    match r.expect_bits(1, 1) {
        Some(true) => {},
        Some(false) => {
            proof {
                crate::bits::lemma_bits_val_one(old(r).spec_data(), old(r).spec_pos() + 19);
            }
            return Err(ParseError::Invalid);
        },
        None => {
            return Err(ParseError::Incomplete);
        },
    };
    let lo = match r.read_bits(15) {
        Some(v) => v,
        None => {
            return Err(ParseError::Incomplete);
        },
    };
    match r.expect_bits(1, 1) {
        Some(true) => {},
        Some(false) => {
            proof {
                crate::bits::lemma_bits_val_one(old(r).spec_data(), old(r).spec_pos() + 35);
            }
            return Err(ParseError::Invalid);
        },
        None => {
            return Err(ParseError::Incomplete);
        },
    };
    proof {
        crate::bits::lemma_bits_val_one(old(r).spec_data(), old(r).spec_pos() + 3);
        crate::bits::lemma_bits_val_one(old(r).spec_data(), old(r).spec_pos() + 19);
        crate::bits::lemma_bits_val_one(old(r).spec_data(), old(r).spec_pos() + 35);
    }
    proof {
        vstd::arithmetic::power2::lemma2_to64();
        assert(hi < 8 && mid < 0x8000 && lo < 0x8000);
    }
    let base: u64 = (hi << 30) | (mid << 15) | lo;
    proof {
        let h = hi;
        let m = mid;
        let l = lo;
        assert(h < 8 && m < 0x8000 && l < 0x8000 ==> ((h << 30) | (m << 15) | l) == h * 0x4000_0000
            + m * 0x8000 + l) by (bit_vector);
        assert(base < 0x2_0000_0000);
    }
    Ok(Clock::base(base))
}

/// Parse a 33-bit `Clock` value plus a 9-bit extension and 4 marker bits,
/// consuming 46 bits.
pub fn clock_and_ext(r: &mut BitReader) -> (res: Result<Clock, ParseError>)
    requires
        old(r).wf(),
    ensures
        final(r).wf(),
        final(r).spec_data() == old(r).spec_data(),
        res is Ok <==> old(r).spec_pos() + 46 <= 8 * old(r).spec_data().len()
            && spec_clock_markers_ok(old(r).spec_data(), old(r).spec_pos()) && spec_bit(
            old(r).spec_data(),
            old(r).spec_pos() + 45,
        ) == 1,
        res is Ok ==> {
            &&& final(r).spec_pos() == old(r).spec_pos() + 46
            &&& res->Ok_0.spec_base() == spec_clock_base(old(r).spec_data(), old(r).spec_pos())
            &&& res->Ok_0.spec_value() == spec_clock_base(old(r).spec_data(), old(r).spec_pos())
                * 512 + bits_val(old(r).spec_data(), old(r).spec_pos() + 36, 9)
        },
        res == Err::<Clock, ParseError>(ParseError::Incomplete) ==> 8 * old(r).spec_data().len()
            < old(r).spec_pos() + 46,
{
    let c = clock(r)?;
    let ext = match r.read_bits(9) {
        Some(v) => v,
        None => {
            return Err(ParseError::Incomplete);
        },
    };
    proof {
        vstd::arithmetic::power2::lemma2_to64();
        assert(ext < 512);
    }
    match r.expect_bits(1, 1) {
        Some(true) => {},
        Some(false) => {
            proof {
                crate::bits::lemma_bits_val_one(old(r).spec_data(), old(r).spec_pos() + 45);
            }
            return Err(ParseError::Invalid);
        },
        None => {
            return Err(ParseError::Incomplete);
        },
    };
    proof {
        crate::bits::lemma_bits_val_one(old(r).spec_data(), old(r).spec_pos() + 45);
        vstd::arithmetic::div_mod::lemma_mod_multiples_basic(
            spec_clock_base(old(r).spec_data(), old(r).spec_pos()) as int,
            512,
        );
        let v = c.spec_value();
        assert(v % 512 == 0 ==> v & 0x1ff == 0) by (bit_vector);
    }
    Ok(c.with_ext(ext as u16))
}

} // verus!
