//! MPEG-2 Packetized Elementary Stream (`PES`) packets.
//!
//! These packets are nested inside the MPEG-2 Program Stream packets found
//! in a `.sub` file.  The grammar is bit-exact: every parser's contract is
//! an if-and-only-if over the input bytes, with each field pinned to the
//! bits it came from.

use crate::bits::{bits_val, spec_be16, spec_bit, BitReader};
use crate::vobsub::clock::{clock, spec_clock_base, spec_clock_markers_ok, Clock};
use crate::vobsub::ParseError;
use vstd::prelude::*;

verus! {

/// Possible combinations of `PTS` and `DTS` data inside a `PES` header.
#[derive(Clone, Copy, Debug, Default, PartialEq, Eq, Structural)]
pub enum PtsDtsFlags {
    /// No time stamps.
    #[default]
    NoTimestamps,
    /// Presentation Time Stamp only.
    Pts,
    /// Presentation and Decode Time Stamps.
    PtsDts,
}

/// The flags value encoded by a 2-bit field (the value 1 is reserved and
/// rejected by the parser).
pub open spec fn spec_flags_value(v: nat) -> PtsDtsFlags {
    if v == 0 {
        PtsDtsFlags::NoTimestamps
    } else if v == 2 {
        PtsDtsFlags::Pts
    } else {
        PtsDtsFlags::PtsDts
    }
}

/// Parse `PTS` & `DTS` flags in a `PES` packet header.  Consumes two bits.
pub fn pts_dts_flags(r: &mut BitReader) -> (res: Result<PtsDtsFlags, ParseError>)
    requires
        old(r).wf(),
    ensures
        final(r).wf(),
        final(r).spec_data() == old(r).spec_data(),
        res is Ok <==> old(r).spec_pos() + 2 <= 8 * old(r).spec_data().len() && bits_val(
            old(r).spec_data(),
            old(r).spec_pos(),
            2,
        ) != 1,
        res is Ok ==> final(r).spec_pos() == old(r).spec_pos() + 2 && res->Ok_0
            == spec_flags_value(bits_val(old(r).spec_data(), old(r).spec_pos(), 2)),
        res == Err::<PtsDtsFlags, ParseError>(ParseError::Incomplete) ==> 8 * old(
            r,
        ).spec_data().len() < old(r).spec_pos() + 2,
{
    proof {
        vstd::arithmetic::power2::lemma2_to64();
    }
    match r.read_bits(2) {
        Some(0) => Ok(PtsDtsFlags::NoTimestamps),
        Some(2) => Ok(PtsDtsFlags::Pts),
        Some(3) => Ok(PtsDtsFlags::PtsDts),
        Some(_) => Err(ParseError::Invalid),
        None => Err(ParseError::Incomplete),
    }
}

/// Presentation and Decode Time Stamps, if available.
#[derive(Debug, Clone, Copy, PartialEq, Eq, Structural)]
pub struct PtsDts {
    /// Presentation Time Stamp.
    pub pts: Clock,
    /// Decode Time Stamp.
    pub dts: Option<Clock>,
}

/// One serialized time stamp: a 4-bit tag, then a 33-bit clock with its
/// three marker bits — five bytes in all.
pub open spec fn spec_stamp_ok(data: Seq<u8>, q: int, tag: nat) -> bool {
    &&& 8 * q + 40 <= 8 * data.len()
    &&& bits_val(data, 8 * q, 4) == tag
    &&& spec_clock_markers_ok(data, 8 * q + 4)
}

/// The clock value of the serialized time stamp at byte `q`.
pub open spec fn spec_stamp_clock(data: Seq<u8>, q: int) -> nat {
    spec_clock_base(data, 8 * q + 4)
}

/// Parse one serialized time stamp (tag nibble plus clock) at byte `q`.
fn stamp(data: &[u8], q: usize) -> (res: Result<Clock, ParseError>)
    requires
        q + 5 <= data@.len(),
    ensures
        res is Ok <==> spec_stamp_ok(data@, q as int, 2),
        res is Ok ==> res->Ok_0.spec_value() == spec_stamp_clock(data@, q as int) * 512
            && res->Ok_0.spec_base() == spec_stamp_clock(data@, q as int),
        res is Err ==> res->Err_0 == ParseError::Invalid,
{
    let mut r = BitReader::new_at(data, q, 0);
    match r.expect_bits(4, 2) {
        Some(true) => {},
        _ => {
            return Err(ParseError::Invalid);
        },
    }
    match clock(&mut r) {
        Ok(c) => Ok(c),
        Err(_) => Err(ParseError::Invalid),
    }
}

/// The `PtsDts` region contents demanded by a flags value `pd` in a header
/// data region of `hl` bytes starting at byte `q`.
pub open spec fn spec_pts_region_ok(data: Seq<u8>, q: int, hl: int, pd: nat) -> bool {
    if pd == 0 {
        true
    } else if pd == 2 {
        hl >= 5 && spec_stamp_ok(data, q, 2)
    } else {
        hl >= 10 && spec_stamp_ok(data, q, 2) && spec_stamp_ok(data, q + 5, 2)
    }
}

/// Parse a `PtsDts` value in the format given by `flags`, inside a header
/// data region of `hl` bytes starting at byte `q`.
pub fn pts_dts(data: &[u8], q: usize, hl: usize, flags: PtsDtsFlags) -> (res: Result<
    Option<PtsDts>,
    ParseError,
>)
    requires
        q + hl <= data@.len(),
    ensures
        res is Ok <==> spec_pts_region_ok(
            data@,
            q as int,
            hl as int,
            match flags {
                PtsDtsFlags::NoTimestamps => 0,
                PtsDtsFlags::Pts => 2,
                PtsDtsFlags::PtsDts => 3,
            },
        ),
        res is Ok ==> match res->Ok_0 {
            Option::None => flags == PtsDtsFlags::NoTimestamps,
            Option::Some(td) => {
                &&& td.pts.spec_value() == spec_stamp_clock(data@, q as int) * 512
                &&& match td.dts {
                    Option::None => flags == PtsDtsFlags::Pts,
                    Option::Some(d) => flags == PtsDtsFlags::PtsDts && d.spec_value()
                        == spec_stamp_clock(data@, q as int + 5) * 512,
                }
            },
        },
        res is Err ==> res->Err_0 == ParseError::Invalid,
{
    let n = data.len();
    match flags {
        PtsDtsFlags::NoTimestamps => Ok(None),
        PtsDtsFlags::Pts => {
            if hl < 5 {
                return Err(ParseError::Invalid);
            }
            let pts = stamp(data, q)?;
            Ok(Some(PtsDts { pts, dts: None }))
        },
        PtsDtsFlags::PtsDts => {
            if hl < 10 {
                return Err(ParseError::Invalid);
            }
            let pts = stamp(data, q)?;
            let dts = stamp(data, q + 5)?;
            Ok(Some(PtsDts { pts, dts: Some(dts) }))
        },
    }
}

/// Read one boolean flag bit from a cursor known to have it available.
fn read_flag_bit(r: &mut BitReader) -> (b: bool)
    requires
        old(r).wf(),
        old(r).spec_pos() + 1 <= 8 * old(r).spec_data().len(),
    ensures
        final(r).wf(),
        final(r).spec_data() == old(r).spec_data(),
        final(r).spec_pos() == old(r).spec_pos() + 1,
        b == (spec_bit(old(r).spec_data(), old(r).spec_pos()) == 1),
{
    proof {
        crate::bits::lemma_bits_val_one(old(r).spec_data(), old(r).spec_pos());
    }
    match r.read_bits(1) {
        Some(v) => v == 1,
        None => {
            proof {
                assert(false);
            }
            false
        },
    }
}

/// Flags specifying which header data fields are present.
#[derive(Debug, Default, Clone, Copy, PartialEq, Eq, Structural)]
pub struct HeaderDataFlags {
    /// Which time stamps follow in the header data region.
    pub pts_dts_flags: PtsDtsFlags,
    /// Elementary Stream Clock Reference present.
    pub escr_flag: bool,
    /// Elementary Stream rate present.
    pub es_rate_flag: bool,
    /// Trick mode field present.
    pub dsm_trick_mode_flag: bool,
    /// Additional copy info present.
    pub additional_copy_info_flag: bool,
    /// CRC present.
    pub crc_flag: bool,
    /// Extension present.
    pub extension_flag: bool,
}

/// What a parsed flags byte at byte `p` holds, field by field.
pub open spec fn spec_header_data_flags(data: Seq<u8>, p: int) -> HeaderDataFlags {
    HeaderDataFlags {
        pts_dts_flags: spec_flags_value(bits_val(data, 8 * p, 2)),
        escr_flag: spec_bit(data, 8 * p + 2) == 1,
        es_rate_flag: spec_bit(data, 8 * p + 3) == 1,
        dsm_trick_mode_flag: spec_bit(data, 8 * p + 4) == 1,
        additional_copy_info_flag: spec_bit(data, 8 * p + 5) == 1,
        crc_flag: spec_bit(data, 8 * p + 6) == 1,
        extension_flag: spec_bit(data, 8 * p + 7) == 1,
    }
}

/// Parse the `PES` header data flags byte at byte offset `p`.
pub fn header_data_flags(data: &[u8], p: usize) -> (res: Result<HeaderDataFlags, ParseError>)
    ensures
        res is Ok <==> p + 1 <= data@.len() && bits_val(data@, 8 * p as int, 2) != 1,
        res is Ok ==> res->Ok_0 == spec_header_data_flags(data@, p as int),
        res == Err::<HeaderDataFlags, ParseError>(ParseError::Incomplete) ==> data@.len() < p + 1,
{
    if p >= data.len() {
        return Err(ParseError::Incomplete);
    }
    let mut r = BitReader::new_at(data, p, 0);
    let ptsdts = pts_dts_flags(&mut r)?;
    let escr = read_flag_bit(&mut r);
    let es_rate = read_flag_bit(&mut r);
    let dsm = read_flag_bit(&mut r);
    let add_copy = read_flag_bit(&mut r);
    let crc = read_flag_bit(&mut r);
    let ext = read_flag_bit(&mut r);
    Ok(
        HeaderDataFlags {
            pts_dts_flags: ptsdts,
            escr_flag: escr,
            es_rate_flag: es_rate,
            dsm_trick_mode_flag: dsm,
            additional_copy_info_flag: add_copy,
            crc_flag: crc,
            extension_flag: ext,
        },
    )
}

/// Header data fields: the flags byte and the time stamps it announces.
#[derive(Debug, Default, Clone, Copy, PartialEq, Eq, Structural)]
pub struct HeaderData {
    /// The parsed flags byte.
    pub flags: HeaderDataFlags,
    /// The time stamps, when the flags announce them.
    pub pts_dts: Option<PtsDts>,
}

/// The length byte of the header data region at byte `p` (flags byte first,
/// length byte second).
pub open spec fn spec_hd_len(data: Seq<u8>, p: int) -> int {
    data[p + 1] as int
}

/// A well-formed header data region at byte `p`: flags byte, length byte,
/// then the announced time stamps inside the declared region.
pub open spec fn spec_header_data_ok(data: Seq<u8>, p: int) -> bool {
    &&& p + 2 <= data.len()
    &&& bits_val(data, 8 * p, 2) != 1
    &&& p + 2 + spec_hd_len(data, p) <= data.len()
    &&& spec_pts_region_ok(data, p + 2, spec_hd_len(data, p), bits_val(data, 8 * p, 2))
}

/// Where the header data region at byte `p` ends.
pub open spec fn spec_header_data_end(data: Seq<u8>, p: int) -> int {
    p + 2 + spec_hd_len(data, p)
}

/// The parser ran out of input rather than meeting bad bytes.
pub open spec fn spec_header_data_incomplete(data: Seq<u8>, p: int) -> bool {
    ||| data.len() < p + 2
    ||| data.len() < p + 2 + spec_hd_len(data, p)
}

/// Parse `PES` header data at byte `p`: the flags byte, the length byte,
/// and the announced time stamps; the rest of the declared region is
/// skipped.
pub fn header_data(data: &[u8], p: usize) -> (res: Result<(HeaderData, usize), ParseError>)
    ensures
        res is Ok <==> spec_header_data_ok(data@, p as int),
        res is Ok ==> {
            &&& res->Ok_0.1 == spec_header_data_end(data@, p as int)
            &&& res->Ok_0.0.flags == spec_header_data_flags(data@, p as int)
            &&& match res->Ok_0.0.pts_dts {
                Option::None => res->Ok_0.0.flags.pts_dts_flags == PtsDtsFlags::NoTimestamps,
                Option::Some(td) => {
                    &&& td.pts.spec_value() == spec_stamp_clock(data@, p + 2) * 512
                    &&& match td.dts {
                        Option::None => res->Ok_0.0.flags.pts_dts_flags == PtsDtsFlags::Pts,
                        Option::Some(d) => res->Ok_0.0.flags.pts_dts_flags == PtsDtsFlags::PtsDts
                            && d.spec_value() == spec_stamp_clock(data@, p + 7) * 512,
                    }
                },
            }
        },
        res == Err::<(HeaderData, usize), ParseError>(ParseError::Incomplete)
            ==> spec_header_data_incomplete(data@, p as int),
{
    let flags = header_data_flags(data, p)?;
    if data.len() - p < 2 {
        return Err(ParseError::Incomplete);
    }
    let hl = data[p + 1] as usize;
    if data.len() - (p + 2) < hl {
        return Err(ParseError::Incomplete);
    }
    let pts_dts_val = pts_dts(data, p + 2, hl, flags.pts_dts_flags)?;
    Ok((HeaderData { flags, pts_dts: pts_dts_val }, p + 2 + hl))
}

/// A `PES` packet header, not including the header data region.
#[derive(Debug, Default, Clone, Copy, PartialEq, Eq, Structural)]
pub struct Header {
    /// Scrambling control (2 bits).
    pub scrambling_control: u8,
    /// Priority flag.
    pub priority: bool,
    /// Data alignment indicator.
    pub data_alignment_indicator: bool,
    /// Copyright flag.
    pub copyright: bool,
    /// Original-or-copy flag.
    pub original: bool,
}

/// What a parsed `PES` header byte at byte `p` holds, field by field.
pub open spec fn spec_header(data: Seq<u8>, p: int) -> Header {
    Header {
        scrambling_control: (bits_val(data, 8 * p + 2, 2) as u8),
        priority: spec_bit(data, 8 * p + 4) == 1,
        data_alignment_indicator: spec_bit(data, 8 * p + 5) == 1,
        copyright: spec_bit(data, 8 * p + 6) == 1,
        original: spec_bit(data, 8 * p + 7) == 1,
    }
}

/// Parse the first `PES` header byte at byte `p`: a 2-bit tag of value 2,
/// then the five flag fields.
pub fn header(data: &[u8], p: usize) -> (res: Result<Header, ParseError>)
    ensures
        res is Ok <==> p + 1 <= data@.len() && bits_val(data@, 8 * p as int, 2) == 2,
        res is Ok ==> res->Ok_0 == spec_header(data@, p as int),
        res == Err::<Header, ParseError>(ParseError::Incomplete) ==> data@.len() < p + 1,
{
    if p >= data.len() {
        return Err(ParseError::Incomplete);
    }
    let mut r = BitReader::new_at(data, p, 0);
    match r.expect_bits(2, 2) {
        Some(true) => {},
        Some(false) => {
            return Err(ParseError::Invalid);
        },
        None => {
            proof {
                assert(false);
            }
            return Err(ParseError::Incomplete);
        },
    }
    let sc = match r.read_bits(2) {
        Some(v) => v,
        None => {
            proof {
                assert(false);
            }
            return Err(ParseError::Incomplete);
        },
    };
    proof {
        vstd::arithmetic::power2::lemma2_to64();
    }
    let priority = read_flag_bit(&mut r);
    let data_alignment_indicator = read_flag_bit(&mut r);
    let copyright = read_flag_bit(&mut r);
    let original = read_flag_bit(&mut r);
    Ok(
        Header {
            scrambling_control: sc as u8,
            priority,
            data_alignment_indicator,
            copyright,
            original,
        },
    )
}

/// A Packetized Elementary Stream packet.
#[derive(Debug, PartialEq, Eq)]
pub struct Packet<'a> {
    /// The packet header flags.
    pub header: Header,
    /// The header data region: flags and time stamps.
    pub header_data: HeaderData,
    /// The substream this packet belongs to.
    pub substream_id: u8,
    /// The packet payload.
    pub data: &'a [u8],
}

/// The four tag bytes announcing a `PES` packet.
pub open spec fn spec_packet_tag_ok(data: Seq<u8>, pos: int) -> bool {
    &&& pos + 4 <= data.len()
    &&& data[pos] == 0
    &&& data[pos + 1] == 0
    &&& data[pos + 2] == 1
    &&& data[pos + 3] == 0xbd
}

/// The declared length of the `PES` packet at `pos` (the region after the
/// 6 tag and length bytes).
pub open spec fn spec_packet_len(data: Seq<u8>, pos: int) -> int {
    spec_be16(data, pos + 4) as int
}

/// Where the `PES` packet at `pos` ends.
pub open spec fn spec_packet_end(data: Seq<u8>, pos: int) -> int {
    pos + 6 + spec_packet_len(data, pos)
}

/// A complete, well-formed `PES` packet at byte `pos`: the tag, the length,
/// and a well-formed body fitting the declared region.
pub open spec fn spec_packet_ok(data: Seq<u8>, pos: int) -> bool {
    &&& spec_packet_tag_ok(data, pos)
    &&& pos + 6 <= data.len()
    &&& spec_packet_end(data, pos) <= data.len()
    &&& {
        let p = pos + 6;
        let l = spec_packet_len(data, pos);
        &&& l >= 1
        &&& bits_val(data, 8 * p, 2) == 2
        &&& spec_header_data_ok(data, p + 1)
        &&& spec_header_data_end(data, p + 1) + 1 <= pos + 6 + l
    }
}

/// The `PES` packet at `pos` runs past the end of the input.
pub open spec fn spec_packet_incomplete(data: Seq<u8>, pos: int) -> bool {
    ||| data.len() < pos + 4
    ||| (spec_packet_tag_ok(data, pos) && data.len() < pos + 6)
    ||| (spec_packet_tag_ok(data, pos) && data.len() < spec_packet_end(data, pos))
}

/// The payload bytes of the `PES` packet at `pos`: everything in the
/// declared region after the header data and the substream id.
pub open spec fn spec_packet_payload(data: Seq<u8>, pos: int) -> Seq<u8> {
    data.subrange(spec_header_data_end(data, pos + 7) + 1, spec_packet_end(data, pos))
}

/// The fields of a parsed `PES` packet, each pinned to the bytes it came
/// from.
pub open spec fn spec_packet_describes<'a>(data: Seq<u8>, pos: int, pkt: Packet<'a>) -> bool {
    let p = pos + 6;
    &&& pkt.header == spec_header(data, p)
    &&& pkt.header_data.flags == spec_header_data_flags(data, p + 1)
    &&& match pkt.header_data.pts_dts {
        Option::None => pkt.header_data.flags.pts_dts_flags == PtsDtsFlags::NoTimestamps,
        Option::Some(td) => {
            &&& td.pts.spec_value() == spec_stamp_clock(data, p + 3) * 512
            &&& match td.dts {
                Option::None => pkt.header_data.flags.pts_dts_flags == PtsDtsFlags::Pts,
                Option::Some(d) => pkt.header_data.flags.pts_dts_flags == PtsDtsFlags::PtsDts
                    && d.spec_value() == spec_stamp_clock(data, p + 8) * 512,
            }
        },
    }
    &&& pkt.substream_id == data[spec_header_data_end(data, p + 1)]
    &&& pkt.data@ == spec_packet_payload(data, pos)
}

/// Parse a complete `PES` packet at byte `pos`: tag bytes, length, header,
/// header data, substream id, and the payload slice.
pub fn packet<'a>(data: &'a [u8], pos: usize) -> (res: Result<(Packet<'a>, usize), ParseError>)
    ensures
        res is Ok <==> spec_packet_ok(data@, pos as int),
        res is Ok ==> spec_packet_describes(data@, pos as int, res->Ok_0.0) && res->Ok_0.1
            == spec_packet_end(data@, pos as int),
        res == Err::<(Packet<'a>, usize), ParseError>(ParseError::Incomplete)
            <==> spec_packet_incomplete(data@, pos as int),
{
    if data.len() < pos || data.len() - pos < 4 {
        return Err(ParseError::Incomplete);
    }
    if !(data[pos] == 0 && data[pos + 1] == 0 && data[pos + 2] == 1 && data[pos + 3] == 0xbd) {
        return Err(ParseError::Invalid);
    }
    if data.len() - pos < 6 {
        return Err(ParseError::Incomplete);
    }
    let l = crate::bits::read_be16(data, pos + 4) as usize;
    if data.len() - (pos + 6) < l {
        return Err(ParseError::Incomplete);
    }
    let p = pos + 6;
    if l < 1 {
        return Err(ParseError::Invalid);
    }
    let hdr = match header(data, p) {
        Ok(h) => h,
        Err(_) => {
            return Err(ParseError::Invalid);
        },
    };
    let (hd, hd_end) = match header_data(data, p + 1) {
        Ok(v) => v,
        Err(_) => {
            return Err(ParseError::Invalid);
        },
    };
    if hd_end >= pos + 6 + l {
        return Err(ParseError::Invalid);
    }
    let substream_id = data[hd_end];
    let payload: &'a [u8] = vstd::slice::slice_subrange(data, hd_end + 1, pos + 6 + l);
    Ok((Packet { header: hdr, header_data: hd, substream_id, data: payload }, pos + 6 + l))
}

} // verus!
