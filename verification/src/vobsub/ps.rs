//! MPEG-2 Program Streams (PS).
//!
//! This is the container format at the top level of a `.sub` file.  The
//! demultiplexer scans for pack headers, parses the `PES` packet behind
//! each one, and resynchronizes after malformed packets so that garbage
//! between valid packets never loses the packets that follow.

use crate::bits::{bits_val, spec_bit, BitReader};
use crate::vobsub::clock::{clock_and_ext, spec_clock_base, spec_clock_markers_ok, Clock};
use crate::vobsub::{pes, ParseError, VobSubError};
use vstd::prelude::*;

verus! {

/// A parsed MPEG-2 Program Stream pack header.
#[derive(Debug, Clone, Copy, PartialEq, Eq, Structural)]
pub struct Header {
    /// The System Clock Reference (`SCR`) and `SCR` extension field.
    pub scr: Clock,
    /// The bit rate, in units of 50 bytes per second.
    pub bit_rate: u32,
}

/// The four tag bytes announcing a pack header.
pub open spec fn is_ps_start(data: Seq<u8>, i: int) -> bool {
    &&& 0 <= i
    &&& i + 4 <= data.len()
    &&& data[i] == 0
    &&& data[i + 1] == 0
    &&& data[i + 2] == 1
    &&& data[i + 3] == 0xba
}

/// The number of stuffing bytes declared at the end of the pack header.
pub open spec fn spec_ps_stuffing(data: Seq<u8>, pos: int) -> int {
    bits_val(data, 8 * (pos + 4) + 77, 3) as int
}

/// Where the pack header at `pos` ends: 14 fixed bytes plus the stuffing.
pub open spec fn spec_ps_end(data: Seq<u8>, pos: int) -> int {
    pos + 14 + spec_ps_stuffing(data, pos)
}

/// The bit-level fields of the pack header at `pos` are well-formed: the
/// version tag, the serialized clock markers, and the two marker bits.
pub open spec fn spec_ps_fields_ok(data: Seq<u8>, pos: int) -> bool {
    let b = 8 * (pos + 4);
    &&& bits_val(data, b, 2) == 1
    &&& spec_clock_markers_ok(data, b + 2)
    &&& spec_bit(data, b + 47) == 1
    &&& bits_val(data, b + 70, 2) == 3
}

/// A complete, well-formed pack header at `pos`.
pub open spec fn spec_ps_ok(data: Seq<u8>, pos: int) -> bool {
    &&& is_ps_start(data, pos)
    &&& pos + 14 <= data.len()
    &&& spec_ps_fields_ok(data, pos)
    &&& spec_ps_end(data, pos) <= data.len()
}

/// The pack header at `pos` runs past the end of the input.
pub open spec fn spec_ps_incomplete(data: Seq<u8>, pos: int) -> bool {
    ||| data.len() < pos + 4
    ||| (is_ps_start(data, pos) && data.len() < pos + 14)
    ||| (is_ps_start(data, pos) && pos + 14 <= data.len() && spec_ps_fields_ok(data, pos)
        && data.len() < spec_ps_end(data, pos))
}

/// The fields of a parsed pack header, pinned to the bits they came from.
pub open spec fn spec_ps_describes(data: Seq<u8>, pos: int, h: Header) -> bool {
    let b = 8 * (pos + 4);
    &&& h.scr.spec_value() == spec_clock_base(data, b + 2) * 512 + bits_val(data, b + 38, 9)
    &&& h.bit_rate == bits_val(data, b + 48, 22)
}

/// Parse a Program Stream pack header at byte `pos`.
pub fn header(data: &[u8], pos: usize) -> (res: Result<(Header, usize), ParseError>)
    ensures
        res is Ok <==> spec_ps_ok(data@, pos as int),
        res is Ok ==> spec_ps_describes(data@, pos as int, res->Ok_0.0) && res->Ok_0.1
            == spec_ps_end(data@, pos as int),
        res == Err::<(Header, usize), ParseError>(ParseError::Incomplete) <==> spec_ps_incomplete(
            data@,
            pos as int,
        ),
{
    if data.len() < pos || data.len() - pos < 4 {
        return Err(ParseError::Incomplete);
    }
    if !(data[pos] == 0 && data[pos + 1] == 0 && data[pos + 2] == 1 && data[pos + 3] == 0xba) {
        return Err(ParseError::Invalid);
    }
    if data.len() - pos < 14 {
        return Err(ParseError::Incomplete);
    }
    let mut r = BitReader::new_at(data, pos + 4, 0);
    match r.expect_bits(2, 1) {
        Some(true) => {},
        _ => {
            return Err(ParseError::Invalid);
        },
    }
    let scr = match clock_and_ext(&mut r) {
        Ok(c) => c,
        Err(_) => {
            return Err(ParseError::Invalid);
        },
    };
    let bit_rate = match r.read_bits(22) {
        Some(v) => v,
        None => {
            proof {
                assert(false);
            }
            return Err(ParseError::Incomplete);
        },
    };
    match r.expect_bits(2, 3) {
        Some(true) => {},
        _ => {
            return Err(ParseError::Invalid);
        },
    }
    let _reserved = match r.read_bits(5) {
        Some(v) => v,
        None => {
            proof {
                assert(false);
            }
            return Err(ParseError::Incomplete);
        },
    };
    let stuffing = match r.read_bits(3) {
        Some(v) => v,
        None => {
            proof {
                assert(false);
            }
            return Err(ParseError::Incomplete);
        },
    } as usize;
    proof {
        vstd::arithmetic::power2::lemma2_to64();
        vstd::arithmetic::power2::lemma2_to64_rest();
    }
    if data.len() - (pos + 14) < stuffing {
        return Err(ParseError::Incomplete);
    }
    Ok((Header { scr, bit_rate: bit_rate as u32 }, pos + 14 + stuffing))
}

/// A Packetized Elementary Stream packet together with the Program Stream
/// pack header that announced it.
#[derive(Debug, PartialEq, Eq)]
pub struct PesPacket<'a> {
    /// The pack header.
    pub ps_header: Header,
    /// The `PES` packet behind it.
    pub pes_packet: pes::Packet<'a>,
}

/// A pack header followed by a complete `PES` packet.
pub open spec fn spec_pes_packet_ok(data: Seq<u8>, pos: int) -> bool {
    spec_ps_ok(data, pos) && pes::spec_packet_ok(data, spec_ps_end(data, pos))
}

/// Where the pack-header-plus-packet pair at `pos` ends.
pub open spec fn spec_pes_packet_end(data: Seq<u8>, pos: int) -> int {
    pes::spec_packet_end(data, spec_ps_end(data, pos))
}

/// The pair at `pos` runs past the end of the input.
pub open spec fn spec_pes_packet_incomplete(data: Seq<u8>, pos: int) -> bool {
    ||| spec_ps_incomplete(data, pos)
    ||| (spec_ps_ok(data, pos) && pes::spec_packet_incomplete(data, spec_ps_end(data, pos)))
}

/// The fields of a parsed pair, pinned to the bytes they came from.
pub open spec fn spec_pes_packet_describes<'a>(data: Seq<u8>, pos: int, p: PesPacket<'a>) -> bool {
    &&& spec_ps_describes(data, pos, p.ps_header)
    &&& pes::spec_packet_describes(data, spec_ps_end(data, pos), p.pes_packet)
}

/// Parse a Program Stream pack header and the `PES` packet that follows it.
pub fn pes_packet<'a>(data: &'a [u8], pos: usize) -> (res: Result<
    (PesPacket<'a>, usize),
    ParseError,
>)
    ensures
        res is Ok <==> spec_pes_packet_ok(data@, pos as int),
        res is Ok ==> spec_pes_packet_describes(data@, pos as int, res->Ok_0.0) && res->Ok_0.1
            == spec_pes_packet_end(data@, pos as int),
        res == Err::<(PesPacket<'a>, usize), ParseError>(ParseError::Incomplete)
            <==> spec_pes_packet_incomplete(data@, pos as int),
{
    let (ps_header, after) = header(data, pos)?;
    let (packet, end) = pes::packet(data, after)?;
    Ok((PesPacket { ps_header, pes_packet: packet }, end))
}

/// How the demultiplexer's scan resolves, starting at `pos`: a position
/// where a complete pair parses, a position where a pair is cut off by the
/// end of the input, or neither anywhere.  Positions that do not carry the
/// start code are passed over; a start code with a malformed pair behind
/// it is skipped whole.
pub ghost enum DemuxStep {
    /// A pack header with a complete packet parses at this position.
    Found(int),
    /// The pair at this position runs past the end of the input.
    Interrupted(int),
    /// No start code with a packet behind it remains.
    Finished,
}

/// How the demultiplexer's scan starting at `pos` resolves.
pub open spec fn demux_resolve(data: Seq<u8>, pos: int) -> DemuxStep
    decreases data.len() - pos,
{
    if pos < 0 || pos + 4 > data.len() {
        DemuxStep::Finished
    } else if !is_ps_start(data, pos) {
        demux_resolve(data, pos + 1)
    } else if spec_pes_packet_ok(data, pos) {
        DemuxStep::Found(pos)
    } else if spec_pes_packet_incomplete(data, pos) {
        DemuxStep::Interrupted(pos)
    } else {
        demux_resolve(data, pos + 4)
    }
}

/// Where the scan stops, a well-formed (or cut-off) pair really stands,
/// at or after where the scan began.
pub proof fn lemma_resolve_characterize(data: Seq<u8>, pos: int)
    requires
        0 <= pos,
    ensures
        match demux_resolve(data, pos) {
            DemuxStep::Found(s) => pos <= s && spec_pes_packet_ok(data, s),
            DemuxStep::Interrupted(s) => pos <= s && spec_pes_packet_incomplete(data, s),
            DemuxStep::Finished => true,
        },
    decreases data.len() - pos,
{
    if pos + 4 > data.len() {
    } else if !is_ps_start(data, pos) {
        lemma_resolve_characterize(data, pos + 1);
    } else if spec_pes_packet_ok(data, pos) {
    } else if spec_pes_packet_incomplete(data, pos) {
    } else {
        lemma_resolve_characterize(data, pos + 4);
    }
}

/// Positions without the start code do not change how the scan resolves.
proof fn lemma_resolve_skip_nonstarts(data: Seq<u8>, pos: int, upto: int)
    requires
        0 <= pos <= upto <= data.len(),
        forall|j: int| pos <= j < upto ==> !is_ps_start(data, j),
    ensures
        demux_resolve(data, pos) == demux_resolve(data, upto),
    decreases upto - pos,
{
    if pos < upto {
        lemma_resolve_skip_nonstarts(data, pos + 1, upto);
    }
}

/// When no start code remains anywhere at or after `pos`, the scan ends.
proof fn lemma_resolve_finished(data: Seq<u8>, pos: int)
    requires
        0 <= pos,
        forall|j: int| pos <= j ==> !is_ps_start(data, j),
    ensures
        demux_resolve(data, pos) == DemuxStep::Finished,
    decreases data.len() - pos,
{
    if pos + 4 <= data.len() {
        lemma_resolve_finished(data, pos + 1);
    }
}

/// An iterator over all the `PES` packets in an MPEG-2 Program Stream.
pub struct PesPackets<'a> {
    /// The remaining input to parse.
    remaining: &'a [u8],
}

/// Iterate over all the `PES` packets in an MPEG-2 Program Stream (or at
/// least those whose framing parses).
pub fn pes_packets<'a>(input: &'a [u8]) -> (r: PesPackets<'a>)
    ensures
        r@ == input@,
{
    PesPackets { remaining: input }
}

impl<'a> View for PesPackets<'a> {
    type V = Seq<u8>;

    closed spec fn view(&self) -> Seq<u8> {
        self.remaining@
    }
}

impl<'a> PesPackets<'a> {
    /// Search for the next parseable packet and return it, skipping
    /// unparseable framings; `None` when no start code remains.  A packet
    /// cut off by the end of the input surfaces as an error and ends the
    /// iteration.
    pub fn next(&mut self) -> (r: Option<Result<PesPacket<'a>, VobSubError>>)
        ensures
            match demux_resolve(old(self)@, 0) {
                DemuxStep::Found(s) => {
                    &&& r is Some
                    &&& r->0 is Ok
                    &&& spec_pes_packet_describes(old(self)@, s, r->0->Ok_0)
                    &&& final(self)@ == old(self)@.subrange(
                        spec_pes_packet_end(old(self)@, s),
                        old(self)@.len() as int,
                    )
                },
                DemuxStep::Interrupted(s) => {
                    &&& r == Some(
                        Err::<PesPacket<'a>, VobSubError>(
                            VobSubError::PESPacket(ParseError::Incomplete),
                        ),
                    )
                    &&& final(self)@.len() == 0
                },
                DemuxStep::Finished => r is None && final(self)@.len() == 0,
            },
    {
        let data: &'a [u8] = self.remaining;
        let n = data.len();
        let mut pos: usize = 0;
        loop
            invariant
                data@ == old(self)@,
                n == data@.len(),
                pos <= n,
                demux_resolve(data@, 0) == demux_resolve(data@, pos as int),
            decreases data@.len() - pos,
        {
            let start = match find_ps_start_from(data, pos) {
                Some(s) => s,
                None => {
                    proof {
                        lemma_resolve_skip_nonstarts(data@, pos as int, data@.len() as int);
                    }
                    let empty: &'a [u8] = vstd::slice::slice_subrange(data, n, n);
                    self.remaining = empty;
                    return None;
                },
            };
            proof {
                lemma_resolve_skip_nonstarts(data@, pos as int, start as int);
            }
            match pes_packet(data, start) {
                Ok((packet, end)) => {
                    proof {
                        lemma_pes_end_in_range(data@, start as int);
                    }
                    self.remaining = vstd::slice::slice_subrange(data, end, n);
                    return Some(Ok(packet));
                },
                Err(ParseError::Incomplete) => {
                    let empty: &'a [u8] = vstd::slice::slice_subrange(data, n, n);
                    self.remaining = empty;
                    return Some(Err(VobSubError::PESPacket(ParseError::Incomplete)));
                },
                Err(ParseError::Invalid) => {
                    pos = start + 4;
                },
            }
        }
    }
}

/// A well-formed pair covers at least its fixed headers and ends within
/// the input.
pub proof fn lemma_pes_end_in_range(data: Seq<u8>, pos: int)
    requires
        spec_pes_packet_ok(data, pos),
    ensures
        pos + 20 <= spec_pes_packet_end(data, pos) <= data.len(),
{
}

/// Find the first position at or after `pos` where the four start-code
/// bytes appear.
fn find_ps_start_from(data: &[u8], pos: usize) -> (r: Option<usize>)
    requires
        pos <= data@.len(),
    ensures
        match r {
            Option::Some(s) => {
                &&& pos <= s
                &&& is_ps_start(data@, s as int)
                &&& forall|j: int| pos <= j < s ==> !is_ps_start(data@, j)
            },
            Option::None => forall|j: int| pos <= j ==> !is_ps_start(data@, j),
        },
{
    let n = data.len();
    if n < 4 {
        return None;
    }
    let mut i: usize = pos;
    while i <= n - 4
        invariant
            pos <= i,
            i <= n,
            4 <= n,
            n == data@.len(),
            forall|j: int| pos <= j < i ==> !is_ps_start(data@, j),
        decreases n - i,
    {
        if data[i] == 0 && data[i + 1] == 0 && data[i + 2] == 1 && data[i + 3] == 0xba {
            return Some(i);
        }
        i = i + 1;
    }
    None
}

/// A bit inside the right part of a concatenation is the bit of that part.
proof fn lemma_spec_bit_shift(garbage: Seq<u8>, rest: Seq<u8>, i: int)
    requires
        0 <= i < 8 * rest.len(),
    ensures
        spec_bit(garbage + rest, 8 * garbage.len() + i) == spec_bit(rest, i),
{
    let g = garbage.len() as int;
    let all = garbage + rest;
    let j = 8 * g + i;
    vstd::arithmetic::div_mod::lemma_fundamental_div_mod(i, 8);
    vstd::arithmetic::div_mod::lemma_mod_bound(i, 8);
    vstd::arithmetic::div_mod::lemma_fundamental_div_mod_converse(j, 8, g + i / 8, i % 8);
    assert(all[g + i / 8] == rest[i / 8]);
}

/// Bit runs read entirely inside the right part of a concatenation have
/// the value they have in that part alone.
proof fn lemma_bits_val_shift(garbage: Seq<u8>, rest: Seq<u8>, start: int, n: nat)
    requires
        0 <= start,
        start + n <= 8 * rest.len(),
    ensures
        bits_val(garbage + rest, 8 * garbage.len() + start, n) == bits_val(rest, start, n),
    decreases n,
{
    if n > 0 {
        lemma_bits_val_shift(garbage, rest, start, (n - 1) as nat);
        lemma_spec_bit_shift(garbage, rest, start + n - 1);
    }
}

/// The three clock marker bits are unchanged by a garbage prefix.
proof fn lemma_markers_shift(garbage: Seq<u8>, rest: Seq<u8>, b: int)
    requires
        0 <= b,
        b + 36 <= 8 * rest.len(),
    ensures
        spec_clock_markers_ok(garbage + rest, 8 * garbage.len() + b) == spec_clock_markers_ok(
            rest,
            b,
        ),
{
    lemma_spec_bit_shift(garbage, rest, b + 3);
    lemma_spec_bit_shift(garbage, rest, b + 19);
    lemma_spec_bit_shift(garbage, rest, b + 35);
}

/// The facts needed to move the parser predicates across a garbage prefix:
/// in-range bytes, bit runs and single bits at shifted positions agree
/// with the clean stream.
proof fn lemma_shift_facts(garbage: Seq<u8>, rest: Seq<u8>)
    ensures
        (garbage + rest).len() == garbage.len() + rest.len(),
        forall|i: int| 0 <= i < rest.len() ==> (garbage + rest)[garbage.len() + i] == rest[i],
        forall|b: int, n: nat|
            0 <= b && b + n <= 8 * rest.len() ==> #[trigger] bits_val(
                garbage + rest,
                8 * garbage.len() + b,
                n,
            ) == bits_val(rest, b, n),
        forall|i: int|
            0 <= i < 8 * rest.len() ==> #[trigger] spec_bit(garbage + rest, 8 * garbage.len() + i)
                == spec_bit(rest, i),
{
    assert forall|b: int, n: nat| 0 <= b && b + n <= 8 * rest.len() implies #[trigger] bits_val(
        garbage + rest,
        8 * garbage.len() + b,
        n,
    ) == bits_val(rest, b, n) by {
        lemma_bits_val_shift(garbage, rest, b, n);
    }
    assert forall|i: int| 0 <= i < 8 * rest.len() implies #[trigger] spec_bit(
        garbage + rest,
        8 * garbage.len() + i,
    ) == spec_bit(rest, i) by {
        lemma_spec_bit_shift(garbage, rest, i);
    }
}

/// Parseability of a pack header is unchanged by a garbage prefix, and so
/// are its end position and its parsed fields.
#[verifier::rlimit(60)]
proof fn lemma_ps_shift(garbage: Seq<u8>, rest: Seq<u8>, s: int)
    requires
        0 <= s,
    ensures
        spec_ps_ok(garbage + rest, garbage.len() + s) == spec_ps_ok(rest, s),
        spec_ps_incomplete(garbage + rest, garbage.len() + s) == spec_ps_incomplete(rest, s),
        is_ps_start(rest, s) && s + 14 <= rest.len() ==> spec_ps_end(
            garbage + rest,
            garbage.len() + s,
        ) == garbage.len() + spec_ps_end(rest, s) && spec_ps_fields_ok(
            garbage + rest,
            garbage.len() + s,
        ) == spec_ps_fields_ok(rest, s),
        spec_ps_ok(rest, s) ==> forall|h: Header|
            spec_ps_describes(garbage + rest, garbage.len() + s, h) == spec_ps_describes(
                rest,
                s,
                h,
            ),
{
    lemma_shift_facts(garbage, rest);
    let g = garbage.len() as int;
    let all = garbage + rest;
    if s + 4 <= rest.len() {
        assert(is_ps_start(all, g + s) == is_ps_start(rest, s));
    } else {
        assert(!is_ps_start(all, g + s) && !is_ps_start(rest, s));
    }
    if is_ps_start(rest, s) && s + 14 <= rest.len() {
        let b = 8 * (s + 4);
        assert(b + 80 <= 8 * rest.len());
        lemma_bits_val_shift(garbage, rest, b, 2);
        lemma_markers_shift(garbage, rest, b + 2);
        lemma_spec_bit_shift(garbage, rest, b + 47);
        lemma_bits_val_shift(garbage, rest, b + 70, 2);
        lemma_bits_val_shift(garbage, rest, b + 77, 3);
        assert(8 * (g + s + 4) == 8 * g + b);
        assert(spec_ps_fields_ok(all, g + s) == spec_ps_fields_ok(rest, s));
        assert(spec_ps_stuffing(all, g + s) == spec_ps_stuffing(rest, s));
        if spec_ps_ok(rest, s) {
            assert forall|h: Header| spec_ps_describes(all, g + s, h) == spec_ps_describes(
                rest,
                s,
                h,
            ) by {
                lemma_bits_val_shift(garbage, rest, b + 38, 9);
                lemma_bits_val_shift(garbage, rest, b + 48, 22);
                lemma_bits_val_shift(garbage, rest, b + 2, 3);
                lemma_bits_val_shift(garbage, rest, b + 6, 15);
                lemma_bits_val_shift(garbage, rest, b + 22, 15);
                assert(spec_clock_base(all, 8 * g + b + 2) == spec_clock_base(rest, b + 2));
            }
        }
    }
}

/// Parseability of the `PES` packet behind the pack header is unchanged by
/// a garbage prefix.
proof fn lemma_packet_shift(garbage: Seq<u8>, rest: Seq<u8>, e: int)
    requires
        0 <= e,
    ensures
        pes::spec_packet_ok(garbage + rest, garbage.len() + e) == pes::spec_packet_ok(rest, e),
        pes::spec_packet_incomplete(garbage + rest, garbage.len() + e)
            == pes::spec_packet_incomplete(rest, e),
        pes::spec_packet_tag_ok(rest, e) && e + 6 <= rest.len() ==> pes::spec_packet_end(
            garbage + rest,
            garbage.len() + e,
        ) == garbage.len() + pes::spec_packet_end(rest, e),
{
    lemma_shift_facts(garbage, rest);
    let g = garbage.len() as int;
    let all = garbage + rest;
    if e + 4 <= rest.len() {
        assert(pes::spec_packet_tag_ok(all, g + e) == pes::spec_packet_tag_ok(rest, e));
    } else {
        assert(!pes::spec_packet_tag_ok(all, g + e) && !pes::spec_packet_tag_ok(rest, e));
    }
    if pes::spec_packet_tag_ok(rest, e) && e + 6 <= rest.len() {
        assert(pes::spec_packet_len(all, g + e) == pes::spec_packet_len(rest, e));
        let l = pes::spec_packet_len(rest, e);
        if e + 6 + l <= rest.len() {
            let p = e + 6;
            if l >= 1 {
                lemma_bits_val_shift(garbage, rest, 8 * p, 2);
                assert(8 * (g + p) == 8 * g + 8 * p);
            }
            lemma_header_data_shift(garbage, rest, p + 1, e + 6 + l);
        }
    }
}

/// Well-formedness and extent of a header data region are unchanged by a
/// garbage prefix, as long as the region is known to lie inside the input.
proof fn lemma_header_data_shift(garbage: Seq<u8>, rest: Seq<u8>, p: int, bound: int)
    requires
        0 <= p,
        bound <= rest.len(),
    ensures
        pes::spec_header_data_ok(garbage + rest, garbage.len() + p) == pes::spec_header_data_ok(
            rest,
            p,
        ),
        p + 2 <= rest.len() ==> pes::spec_header_data_end(garbage + rest, garbage.len() + p)
            == garbage.len() + pes::spec_header_data_end(rest, p),
{
    lemma_shift_facts(garbage, rest);
    let g = garbage.len() as int;
    let all = garbage + rest;
    if p + 2 <= rest.len() {
        assert(pes::spec_hd_len(all, g + p) == pes::spec_hd_len(rest, p));
        let hl = pes::spec_hd_len(rest, p);
        lemma_bits_val_shift(garbage, rest, 8 * p, 2);
        assert(8 * (g + p) == 8 * g + 8 * p);
        if p + 2 + hl <= rest.len() {
            let q = p + 2;
            let pd = bits_val(rest, 8 * p, 2);
            lemma_stamp_shift(garbage, rest, q);
            lemma_stamp_shift(garbage, rest, q + 5);
            assert(pes::spec_pts_region_ok(all, g + q, hl, pd) == pes::spec_pts_region_ok(
                rest,
                q,
                hl,
                pd,
            ));
        }
    }
}

/// A serialized time stamp is unchanged by a garbage prefix.
proof fn lemma_stamp_shift(garbage: Seq<u8>, rest: Seq<u8>, q: int)
    requires
        0 <= q,
    ensures
        forall|tag: nat|
            #[trigger] pes::spec_stamp_ok(garbage + rest, garbage.len() + q, tag)
                == pes::spec_stamp_ok(rest, q, tag),
{
    lemma_shift_facts(garbage, rest);
    let g = garbage.len() as int;
    let all = garbage + rest;
    assert forall|tag: nat| #[trigger] pes::spec_stamp_ok(all, g + q, tag) == pes::spec_stamp_ok(
        rest,
        q,
        tag,
    ) by {
        if 8 * q + 40 <= 8 * rest.len() {
            lemma_bits_val_shift(garbage, rest, 8 * q, 4);
            lemma_markers_shift(garbage, rest, 8 * q + 4);
            assert(8 * (g + q) == 8 * g + 8 * q);
        } else {
            assert(!pes::spec_stamp_ok(all, g + q, tag) && !pes::spec_stamp_ok(rest, q, tag));
        }
    }
}

/// Parseability of a whole pack-header-plus-packet pair is unchanged by a
/// garbage prefix.
proof fn lemma_pes_packet_shift(garbage: Seq<u8>, rest: Seq<u8>, s: int)
    requires
        0 <= s,
    ensures
        spec_pes_packet_ok(garbage + rest, garbage.len() + s) == spec_pes_packet_ok(rest, s),
        spec_pes_packet_incomplete(garbage + rest, garbage.len() + s) == spec_pes_packet_incomplete(
            rest,
            s,
        ),
{
    lemma_ps_shift(garbage, rest, s);
    if is_ps_start(rest, s) && s + 14 <= rest.len() {
        let e = spec_ps_end(rest, s);
        lemma_packet_shift(garbage, rest, e);
    }
}

/// One scan step after a garbage prefix mirrors the step in the clean
/// stream.
proof fn lemma_demux_shift(garbage: Seq<u8>, rest: Seq<u8>, pos: int)
    requires
        0 <= pos,
    ensures
        demux_resolve(garbage + rest, garbage.len() + pos) == match demux_resolve(rest, pos) {
            DemuxStep::Found(s) => DemuxStep::Found(garbage.len() + s),
            DemuxStep::Interrupted(s) => DemuxStep::Interrupted(garbage.len() + s),
            DemuxStep::Finished => DemuxStep::Finished,
        },
    decreases rest.len() - pos,
{
    lemma_shift_facts(garbage, rest);
    let g = garbage.len() as int;
    let all = garbage + rest;
    if pos + 4 > rest.len() {
        assert(g + pos + 4 > all.len());
    } else {
        assert(is_ps_start(all, g + pos) == is_ps_start(rest, pos));
        if !is_ps_start(rest, pos) {
            lemma_demux_shift(garbage, rest, pos + 1);
        } else {
            lemma_pes_packet_shift(garbage, rest, pos);
            if !spec_pes_packet_ok(rest, pos) && !spec_pes_packet_incomplete(rest, pos) {
                lemma_demux_shift(garbage, rest, pos + 4);
            }
        }
    }
}

/// Resync safety of the demultiplexer: a prefix of garbage bytes in which
/// no start code occurs does not change how the stream after it is read.
/// Every packet found after the garbage is the packet found in the clean
/// stream, shifted by the garbage length — none is lost — and its pack
/// header parses to the same fields.
pub proof fn lemma_demux_resync(garbage: Seq<u8>, rest: Seq<u8>)
    requires
        forall|j: int| 0 <= j < garbage.len() ==> !is_ps_start(garbage + rest, j),
    ensures
        match demux_resolve(rest, 0) {
            DemuxStep::Found(s) => {
                &&& demux_resolve(garbage + rest, 0) == DemuxStep::Found(garbage.len() + s)
                &&& spec_pes_packet_ok(garbage + rest, garbage.len() + s)
                &&& forall|h: Header|
                    spec_ps_describes(garbage + rest, garbage.len() + s, h) == spec_ps_describes(
                        rest,
                        s,
                        h,
                    )
            },
            DemuxStep::Interrupted(s) => demux_resolve(garbage + rest, 0)
                == DemuxStep::Interrupted(garbage.len() + s),
            DemuxStep::Finished => demux_resolve(garbage + rest, 0) == DemuxStep::Finished,
        },
{
    let all = garbage + rest;
    let g = garbage.len() as int;
    lemma_resolve_skip_nonstarts(all, 0, g);
    lemma_demux_shift(garbage, rest, 0);
    match demux_resolve(rest, 0) {
        DemuxStep::Found(s) => {
            lemma_resolve_characterize(rest, 0);
            lemma_pes_packet_shift(garbage, rest, s);
            lemma_ps_shift(garbage, rest, s);
        },
        _ => {},
    }
}

} // verus!
