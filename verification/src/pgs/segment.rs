//! Presentation Graphic Stream segment headers: thirteen bytes carrying
//! the `PG` magic, the presentation time, a type code and a size.

use crate::bits::{spec_be16, spec_be32};
use crate::pgs::{PgsError, ReadError};
use vstd::prelude::*;

verus! {

/// The kind of a segment.
#[derive(Debug, Clone, Copy, PartialEq, Eq, Structural)]
pub enum SegmentTypeCode {
    /// Palette Definition Segment.
    Pds,
    /// Object Definition Segment.
    Ods,
    /// Presentation Composition Segment.
    Pcs,
    /// Window Definition Segment.
    Wds,
    /// End of Display Set.
    End,
}

/// The type code a byte denotes, if any.
pub open spec fn spec_type_code(value: u8) -> Option<SegmentTypeCode> {
    if value == 0x14 {
        Some(SegmentTypeCode::Pds)
    } else if value == 0x15 {
        Some(SegmentTypeCode::Ods)
    } else if value == 0x16 {
        Some(SegmentTypeCode::Pcs)
    } else if value == 0x17 {
        Some(SegmentTypeCode::Wds)
    } else if value == 0x80 {
        Some(SegmentTypeCode::End)
    } else {
        None
    }
}

impl SegmentTypeCode {
    /// Decode a type byte; the five known codes succeed, all others fail
    /// with the offending value.
    pub fn try_from(value: u8) -> (res: Result<Self, PgsError>)
        ensures
            match spec_type_code(value) {
                Option::Some(c) => res == Ok::<SegmentTypeCode, PgsError>(c),
                Option::None => res == Err::<SegmentTypeCode, PgsError>(
                    PgsError::SegmentInvalidTypeCode { value },
                ),
            },
    {
        match value {
            0x14 => Ok(SegmentTypeCode::Pds),
            0x15 => Ok(SegmentTypeCode::Ods),
            0x16 => Ok(SegmentTypeCode::Pcs),
            0x17 => Ok(SegmentTypeCode::Wds),
            0x80 => Ok(SegmentTypeCode::End),
            _ => Err(PgsError::SegmentInvalidTypeCode { value }),
        }
    }
}

/// A parsed segment header.
#[derive(Debug, Clone, Copy, PartialEq, Eq, Structural)]
pub struct SegmentHeader {
    /// Presentation Timestamp, in 90 kHz units.
    pts: u32,
    /// The kind of the segment.
    type_code: SegmentTypeCode,
    /// Size of the segment body, in bytes.
    size: u16,
}

impl SegmentHeader {
    /// The raw 90 kHz presentation timestamp.
    pub closed spec fn spec_pts(self) -> u32 {
        self.pts
    }

    /// The kind of the segment.
    pub closed spec fn spec_type_code(self) -> SegmentTypeCode {
        self.type_code
    }

    /// The size of the segment body.
    pub closed spec fn spec_size(self) -> u16 {
        self.size
    }

    /// The presentation time in milliseconds: the 90 kHz timestamp
    /// divided by 90.
    pub fn presentation_time(&self) -> (r: u32)
        ensures
            r == self.spec_pts() / 90,
    {
        self.pts / 90
    }

    /// The kind of the segment.
    pub fn type_code(&self) -> (r: SegmentTypeCode)
        ensures
            r == self.spec_type_code(),
    {
        self.type_code
    }

    /// The size of the segment body.
    pub fn size(&self) -> (r: u16)
        ensures
            r == self.spec_size(),
    {
        self.size
    }
}

/// A well-formed segment header at byte `pos`: the `PG` magic, a known
/// type byte, and thirteen bytes available.
pub open spec fn spec_header_ok(data: Seq<u8>, pos: int) -> bool {
    &&& pos + 13 <= data.len()
    &&& data[pos] == 0x50
    &&& data[pos + 1] == 0x47
    &&& spec_type_code(data[pos + 10]) is Some
}

/// The fields of the header at byte `pos`, as read from its bytes.
pub open spec fn spec_header_describes(data: Seq<u8>, pos: int, h: SegmentHeader) -> bool {
    &&& h.spec_pts() as nat == spec_be32(data, pos + 2)
    &&& Some(h.spec_type_code()) == spec_type_code(data[pos + 10])
    &&& h.spec_size() as nat == spec_be16(data, pos + 11)
}

/// Read the segment header at byte `pos`.  A clean end of the stream at
/// the header boundary yields `None`; a cut-off header, a missing magic
/// and an unknown type byte each yield their own error.
pub fn read_header(data: &[u8], pos: usize) -> (res: Result<Option<(SegmentHeader, usize)>, PgsError>)
    requires
        pos <= data@.len(),
    ensures
        pos == data@.len() ==> res == Ok::<Option<(SegmentHeader, usize)>, PgsError>(None),
        pos < data@.len() && data@.len() < pos + 13 ==> res == Err::<
            Option<(SegmentHeader, usize)>,
            PgsError,
        >(PgsError::SegmentFailReadHeader),
        pos + 13 <= data@.len() && !(data@[pos as int] == 0x50 && data@[pos as int + 1] == 0x47)
            ==> res == Err::<Option<(SegmentHeader, usize)>, PgsError>(PgsError::SegmentPGMissing),
        pos + 13 <= data@.len() && data@[pos as int] == 0x50 && data@[pos as int + 1] == 0x47
            && spec_type_code(data@[pos as int + 10]) is None ==> res == Err::<
            Option<(SegmentHeader, usize)>,
            PgsError,
        >(PgsError::SegmentInvalidTypeCode { value: data@[pos as int + 10] }),
        spec_header_ok(data@, pos as int) ==> res is Ok && res->Ok_0 is Some && (res->Ok_0->0).1
            == pos + 13 && spec_header_describes(data@, pos as int, (res->Ok_0->0).0),
{
    if pos == data.len() {
        return Ok(None);
    }
    if data.len() - pos < 13 {
        return Err(PgsError::SegmentFailReadHeader);
    }
    if !(data[pos] == 0x50 && data[pos + 1] == 0x47) {
        return Err(PgsError::SegmentPGMissing);
    }
    let pts = crate::bits::read_be32(data, pos + 2);
    let type_code = SegmentTypeCode::try_from(data[pos + 10])?;
    let size = crate::bits::read_be16(data, pos + 11);
    Ok(Some((SegmentHeader { pts, type_code, size }, pos + 13)))
}

/// Skip the body of the segment whose header was just read: succeeds
/// exactly when the declared size still fits in the stream.
pub fn skip_segment(data: &[u8], pos: usize, header: &SegmentHeader) -> (res: Result<
    usize,
    PgsError,
>)
    requires
        pos <= data@.len(),
    ensures
        res is Ok <==> pos + header.spec_size() <= data@.len(),
        res is Ok ==> res->Ok_0 == pos + header.spec_size(),
        res is Err ==> res->Err_0 == (PgsError::SegmentSkip {
            source: ReadError::FailedReadBuffer { buffer_size: header.spec_size() as usize },
            type_code: header.spec_type_code(),
        }),
{
    let data_size = header.size() as usize;
    if data.len() - pos < data_size {
        return Err(
            PgsError::SegmentSkip {
                source: ReadError::FailedReadBuffer { buffer_size: data_size },
                type_code: header.type_code(),
            },
        );
    }
    Ok(pos + data_size)
}

} // verus!
