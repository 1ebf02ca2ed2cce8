//! The Presentation Graphic Stream decoders: a display set is composed
//! from a run of segments, and closed by an END segment.  One decoder
//! keeps only the times; the other also reassembles the palette and
//! object data into an image.

use crate::pgs::ods::{self, ObjectDefinitionSegment};
use crate::pgs::pds::{self, PaletteEntry};
use crate::pgs::pgs_image::RleEncodedImage;
use crate::pgs::segment::{read_header, skip_segment, SegmentTypeCode};
use crate::pgs::PgsError;
use crate::time::{TimePoint, TimeSpan};
use vstd::prelude::*;

verus! {

/// Trait of Presentation Graphic Stream decoding: parse the next display
/// set out of the stream, advancing the cursor.  Each decoder names, as
/// spec functions, how the scan at a cursor resolves and which output a
/// successful scan yields; `parse_next` is bound to both.
pub trait PgsDecoder {
    /// The type of the decoded output.
    type Output;

    /// How decoding resolves at this cursor: the position after the next
    /// display set, a clean end of the stream, or the error met.
    spec fn spec_parse(data: Seq<u8>, pos: int) -> Result<Option<int>, PgsError>;

    /// Whether `out` is the value a successful scan at `pos` yields.
    spec fn spec_output(data: Seq<u8>, pos: int, out: Self::Output) -> bool;

    /// Parse the next display set, advancing `pos`; `None` at a clean end
    /// of the stream.
    fn parse_next(data: &[u8], pos: &mut usize) -> (res: Result<Option<Self::Output>, PgsError>)
        requires
            *old(pos) <= data@.len(),
        ensures
            *final(pos) <= data@.len(),
            match res {
                Result::Ok(Option::Some(out)) => Self::spec_parse(data@, *old(pos) as int)
                    == Ok::<Option<int>, PgsError>(Some(*final(pos) as int)) && Self::spec_output(
                    data@,
                    *old(pos) as int,
                    out,
                ),
                Result::Ok(Option::None) => Self::spec_parse(data@, *old(pos) as int) == Ok::<
                    Option<int>,
                    PgsError,
                >(None),
                Result::Err(e) => Self::spec_parse(data@, *old(pos) as int) == Err::<
                    Option<int>,
                    PgsError,
                >(e),
            },
    ;
}

/// What one END segment does to the running start time: the first END
/// records the start, the second closes the span.
pub open spec fn spec_on_end(start_time: Option<TimePoint>, t: TimePoint) -> (
    Option<TimePoint>,
    Option<TimeSpan>,
) {
    match start_time {
        Option::None => (Some(t), None),
        Option::Some(s) => (start_time, Some(TimeSpan { start: s, end: t })),
    }
}

/// The running state of the time-only decoder: the start time of the
/// display set being read, once its first END segment has passed.
pub struct TimeOnlyAccumulator {
    /// The time of the first END segment seen, if any.
    pub start_time: Option<TimePoint>,
}

impl TimeOnlyAccumulator {
    /// Feed the time of one END segment: the first one is recorded as the
    /// start, the second one closes and emits the span.
    pub fn on_end(&mut self, t: TimePoint) -> (r: Option<TimeSpan>)
        ensures
            (final(self).start_time, r) == spec_on_end(old(self).start_time, t),
    {
        match self.start_time {
            None => {
                self.start_time = Some(t);
                None
            },
            Some(s) => Some(TimeSpan::new(s, t)),
        }
    }
}

/// Every span the time-only decoder emits pairs the time of one END
/// segment with the time of a later one; whenever the later segment's
/// time is not below the earlier one's — as in any stream whose
/// presentation times do not decrease — the span is ordered, its start
/// at or before its end.
pub proof fn lemma_time_only_span_ordered(start_time: Option<TimePoint>, t: TimePoint)
    requires
        start_time is Some ==> start_time->0.spec_msecs() <= t.spec_msecs(),
    ensures
        match spec_on_end(start_time, t).1 {
            Option::Some(span) => span.start.spec_msecs() <= span.end.spec_msecs(),
            Option::None => true,
        },
{
}

/// How decoding only the times resolves, scanning from `pos` with the
/// start time of the open display set: the next time span with the
/// position after it, a clean end of the stream, or the error the
/// segment walk meets.
pub open spec fn spec_decode_time_only(data: Seq<u8>, pos: int, start: Option<TimePoint>) -> Result<
    Option<(TimeSpan, int)>,
    PgsError,
>
    decreases data.len() - pos,
{
    if pos == data.len() {
        Ok(None)
    } else if pos < 0 || data.len() < pos + 13 {
        Err(PgsError::SegmentFailReadHeader)
    } else if !(data[pos] == 0x50 && data[pos + 1] == 0x47) {
        Err(PgsError::SegmentPGMissing)
    } else {
        match crate::pgs::segment::spec_type_code(data[pos + 10]) {
            Option::None => Err(PgsError::SegmentInvalidTypeCode { value: data[pos + 10] }),
            Option::Some(code) => {
                let t = TimePoint::spec_from_msecs(
                    ((crate::bits::spec_be32(data, pos + 2) as u32) / 90) as i64,
                );
                let size = crate::bits::spec_be16(data, pos + 11) as int;
                let after = pos + 13;
                if code is End {
                    match spec_on_end(start, t) {
                        (start2, Option::None) => spec_decode_time_only(data, after, start2),
                        (_, Option::Some(span)) => Ok(Some((span, after))),
                    }
                } else if after + size <= data.len() {
                    spec_decode_time_only(data, after + size, start)
                } else {
                    Err(
                        PgsError::SegmentSkip {
                            source: crate::pgs::ReadError::FailedReadBuffer {
                                buffer_size: size as usize,
                            },
                            type_code: code,
                        },
                    )
                }
            },
        }
    }
}

/// Decode the next display times out of the stream: END segments toggle
/// the running state as `spec_on_end` says, every other segment is
/// skipped over by its declared size.
pub fn decode_time_only(data: &[u8], pos: &mut usize) -> (res: Result<Option<TimeSpan>, PgsError>)
    requires
        *old(pos) <= data@.len(),
    ensures
        *final(pos) <= data@.len(),
        match res {
            Result::Ok(Option::Some(span)) => spec_decode_time_only(
                data@,
                *old(pos) as int,
                None,
            ) == Ok::<Option<(TimeSpan, int)>, PgsError>(Some((span, *final(pos) as int))),
            Result::Ok(Option::None) => spec_decode_time_only(data@, *old(pos) as int, None)
                == Ok::<Option<(TimeSpan, int)>, PgsError>(None),
            Result::Err(e) => spec_decode_time_only(data@, *old(pos) as int, None) == Err::<
                Option<(TimeSpan, int)>,
                PgsError,
            >(e),
        },
{
    let mut acc = TimeOnlyAccumulator { start_time: None };
    loop
        invariant
            *pos <= data@.len(),
            spec_decode_time_only(data@, *old(pos) as int, None) == spec_decode_time_only(
                data@,
                *pos as int,
                acc.start_time,
            ),
        decreases data@.len() - *pos,
    {
        let (header, after) = match read_header(data, *pos)? {
            Some(v) => v,
            None => {
                return Ok(None);
            },
        };
        *pos = after;
        match header.type_code() {
            SegmentTypeCode::End => {
                let t = TimePoint::from_msecs(header.presentation_time() as i64);
                match acc.on_end(t) {
                    Some(span) => {
                        return Ok(Some(span));
                    },
                    None => {},
                }
            },
            _ => {
                *pos = skip_segment(data, *pos, &header)?;
            },
        }
    }
}

/// The END segments from `pos` on carry non-decreasing presentation
/// times, each also at least `low`.  Positions where the segment walk
/// stops or fails anyway are not constrained.
pub open spec fn spec_ends_nondecreasing_from(data: Seq<u8>, pos: int, low: int) -> bool
    decreases data.len() - pos,
{
    if pos == data.len() {
        true
    } else if pos < 0 || data.len() < pos + 13 {
        true
    } else if !(data[pos] == 0x50 && data[pos + 1] == 0x47) {
        true
    } else {
        match crate::pgs::segment::spec_type_code(data[pos + 10]) {
            Option::None => true,
            Option::Some(code) => {
                let t = ((crate::bits::spec_be32(data, pos + 2) as u32) / 90) as i64 as int;
                let size = crate::bits::spec_be16(data, pos + 11) as int;
                let after = pos + 13;
                if code is End {
                    low <= t && spec_ends_nondecreasing_from(data, after, t)
                } else if after + size <= data.len() {
                    spec_ends_nondecreasing_from(data, after + size, low)
                } else {
                    true
                }
            },
        }
    }
}

/// Every time span the time-only decoder emits from a stream whose END
/// presentation times do not decrease is ordered: its start lies at or
/// before its end.  The bound `low` threads the time of the last END
/// segment already passed; the start time recorded so far never exceeds
/// it.
pub proof fn lemma_time_only_stream_ordered(
    data: Seq<u8>,
    pos: int,
    start: Option<TimePoint>,
    low: int,
)
    requires
        spec_ends_nondecreasing_from(data, pos, low),
        match start {
            Option::Some(s) => s.spec_msecs() <= low,
            Option::None => true,
        },
    ensures
        match spec_decode_time_only(data, pos, start) {
            Result::Ok(Option::Some((span, _))) => span.start.spec_msecs()
                <= span.end.spec_msecs(),
            _ => true,
        },
    decreases data.len() - pos,
{
    if pos == data.len() {
    } else if pos < 0 || data.len() < pos + 13 {
    } else if !(data[pos] == 0x50 && data[pos + 1] == 0x47) {
    } else {
        match crate::pgs::segment::spec_type_code(data[pos + 10]) {
            Option::None => {},
            Option::Some(code) => {
                let t = TimePoint::spec_from_msecs(
                    ((crate::bits::spec_be32(data, pos + 2) as u32) / 90) as i64,
                );
                crate::time::lemma_msecs_round_trip(
                    ((crate::bits::spec_be32(data, pos + 2) as u32) / 90) as i64,
                );
                let size = crate::bits::spec_be16(data, pos + 11) as int;
                let after = pos + 13;
                if code is End {
                    match start {
                        Option::None => {
                            lemma_time_only_stream_ordered(
                                data,
                                after,
                                Some(t),
                                t.spec_msecs(),
                            );
                        },
                        Option::Some(_) => {},
                    }
                } else if after + size <= data.len() {
                    lemma_time_only_stream_ordered(data, after + size, start, low);
                }
            },
        }
    }
}

/// Decoder that yields only the display times of the subtitles.
pub struct DecodeTimeOnly;

impl PgsDecoder for DecodeTimeOnly {
    type Output = TimeSpan;

    open spec fn spec_parse(data: Seq<u8>, pos: int) -> Result<Option<int>, PgsError> {
        match spec_decode_time_only(data, pos, None) {
            Result::Ok(Option::Some((_, end))) => Ok(Some(end)),
            Result::Ok(Option::None) => Ok(None),
            Result::Err(e) => Err(e),
        }
    }

    open spec fn spec_output(data: Seq<u8>, pos: int, out: TimeSpan) -> bool {
        match spec_decode_time_only(data, pos, None) {
            Result::Ok(Option::Some((span, _))) => out == span,
            _ => false,
        }
    }

    fn parse_next(data: &[u8], pos: &mut usize) -> (res: Result<Option<TimeSpan>, PgsError>) {
        decode_time_only(data, pos)
    }
}

/// The mathematical shape of a reassembled image: its declared size, the
/// palette retained for it, and its raw run-length bytes.
pub ghost struct SpecImage {
    /// Width of the image in pixels.
    pub width: u16,
    /// Height of the image in pixels.
    pub height: u16,
    /// The palette entries retained for the image.
    pub palette: Seq<PaletteEntry>,
    /// The raw run-length bytes of the image.
    pub raw: Seq<u8>,
}

/// The mathematical shape of an object under reassembly: its size, its
/// buffer (read bytes then zeros), and how much has been filled in.
pub ghost struct SpecPendingObject {
    /// Width of the image in pixels.
    pub width: u16,
    /// Height of the image in pixels.
    pub height: u16,
    /// The buffer being filled.
    pub buf: Seq<u8>,
    /// How many bytes of the buffer have been filled.
    pub filled: nat,
}

/// The running state of the time-and-image decoder.
pub ghost struct SpecImageState {
    /// The time of the first END segment seen, if any.
    pub start: Option<TimePoint>,
    /// The palette of the last Palette Definition Segment, until an
    /// object takes it.
    pub palette: Option<Seq<PaletteEntry>>,
    /// The completed image waiting for the closing END segment.
    pub image: Option<SpecImage>,
    /// The object still being reassembled.
    pub pending: Option<SpecPendingObject>,
}

/// The state every display set starts from.
pub open spec fn spec_image_state_init() -> SpecImageState {
    SpecImageState { start: None, palette: None, image: None, pending: None }
}

/// The Object Definition Segment checks of `spec_ods_check`, over the
/// mathematical pending state (which is always a partial object).
pub open spec fn spec_ods_check_pending(
    data: Seq<u8>,
    pos: int,
    ss: int,
    pending: Option<SpecPendingObject>,
) -> Result<(), crate::pgs::ods::OdsError> {
    if data.len() - pos < 3 {
        Err(crate::pgs::ods::OdsError::SkipObjectIdAndVerNum)
    } else if pos + 3 >= data.len() {
        Err(crate::pgs::ods::OdsError::LastInSequenceFlagReadData)
    } else {
        match crate::pgs::ods::spec_sequence_flag(data[pos + 3]) {
            Option::None => Err(
                crate::pgs::ods::OdsError::LastInSequenceFlagInvalidValue {
                    value: data[pos + 3],
                },
            ),
            Option::Some(flag) => match pending {
                Option::None => if !(flag is First || flag is FirstAndLast) {
                    Err(crate::pgs::ods::OdsError::LastInSequenceFlagNotManaged(flag))
                } else if data.len() - (pos + 4) < 3 {
                    Err(crate::pgs::ods::OdsError::ReadObjectDataLength)
                } else if data.len() - (pos + 7) < 2 {
                    Err(crate::pgs::ods::OdsError::ReadWidth)
                } else if data.len() - (pos + 9) < 2 {
                    Err(crate::pgs::ods::OdsError::ReadHeight)
                } else {
                    let dl = crate::pgs::ods::spec_be24(data, pos + 4);
                    if dl < 4 || ss < 11 || ss - 11 > dl - 4 || (flag is FirstAndLast && ss - 11
                        != dl - 4) {
                        Err(
                            crate::pgs::ods::OdsError::InvalidDataSize {
                                segment_size: ss as usize,
                                data_length: dl as usize,
                            },
                        )
                    } else if data.len() - (pos + 11) < ss - 11 {
                        Err(
                            crate::pgs::ods::OdsError::ObjectData {
                                buff_size: (ss - 11) as usize,
                            },
                        )
                    } else {
                        Ok(())
                    }
                },
                Option::Some(p0) => if !(flag is Last) {
                    Err(crate::pgs::ods::OdsError::LastInSequenceFlagNotManaged(flag))
                } else if ss < 4 || p0.buf.len() - p0.filled < ss - 4 {
                    Err(
                        crate::pgs::ods::OdsError::InvalidDataSize {
                            segment_size: ss as usize,
                            data_length: p0.buf.len() as usize,
                        },
                    )
                } else if data.len() - (pos + 4) < ss - 4 {
                    Err(
                        crate::pgs::ods::OdsError::ObjectData { buff_size: (ss - 4) as usize },
                    )
                } else {
                    Ok(())
                },
            },
        }
    }
}

/// How decoding times and images resolves, scanning from `pos` with the
/// given state: the next span with its image and the position after it,
/// a clean end of the stream, or the error the segment walk meets.
pub open spec fn spec_decode_time_image(data: Seq<u8>, pos: int, st: SpecImageState) -> Result<
    Option<(TimeSpan, SpecImage, int)>,
    PgsError,
>
    decreases data.len() - pos,
{
    if pos == data.len() {
        Ok(None)
    } else if pos < 0 || data.len() < pos + 13 {
        Err(PgsError::SegmentFailReadHeader)
    } else if !(data[pos] == 0x50 && data[pos + 1] == 0x47) {
        Err(PgsError::SegmentPGMissing)
    } else {
        match crate::pgs::segment::spec_type_code(data[pos + 10]) {
            Option::None => Err(PgsError::SegmentInvalidTypeCode { value: data[pos + 10] }),
            Option::Some(code) => {
                let t = TimePoint::spec_from_msecs(
                    ((crate::bits::spec_be32(data, pos + 2) as u32) / 90) as i64,
                );
                let ss = crate::bits::spec_be16(data, pos + 11) as int;
                let after = pos + 13;
                if code is Pds {
                    if data.len() - after < ss {
                        Err(PgsError::PDSParse(crate::pgs::pds::PdsError::BufferParse))
                    } else if ss < 2 || (ss - 2) % 5 != 0 {
                        Err(
                            PgsError::PDSParse(
                                crate::pgs::pds::PdsError::InvalidEntriesSize {
                                    size: ss as usize,
                                },
                            ),
                        )
                    } else {
                        spec_decode_time_image(
                            data,
                            after + ss,
                            SpecImageState {
                                palette: Some(
                                    crate::pgs::pds::spec_pds_entries(
                                        data,
                                        after + 2,
                                        ((ss - 2) / 5) as nat,
                                    ),
                                ),
                                ..st
                            },
                        )
                    }
                } else if code is Ods {
                    match spec_ods_check_pending(data, after, ss, st.pending) {
                        Result::Err(e) => Err(PgsError::ODSParse(e)),
                        Result::Ok(_) => match st.pending {
                            Option::None => {
                                let flag = crate::pgs::ods::spec_sequence_flag(
                                    data[after + 3],
                                )->0;
                                let dl = crate::pgs::ods::spec_be24(data, after + 4);
                                let rds = ss - 11;
                                let w = crate::bits::spec_be16(data, after + 7) as u16;
                                let h = crate::bits::spec_be16(data, after + 9) as u16;
                                let bytes = data.subrange(after + 11, after + 11 + rds);
                                if flag is First {
                                    spec_decode_time_image(
                                        data,
                                        after + ss,
                                        SpecImageState {
                                            pending: Some(
                                                SpecPendingObject {
                                                    width: w,
                                                    height: h,
                                                    buf: bytes + Seq::new(
                                                        (dl - 4 - rds) as nat,
                                                        |i: int| 0u8,
                                                    ),
                                                    filled: rds as nat,
                                                },
                                            ),
                                            ..st
                                        },
                                    )
                                } else {
                                    match st.palette {
                                        Option::None => Err(PgsError::MissingPalette),
                                        Option::Some(p) => spec_decode_time_image(
                                            data,
                                            after + ss,
                                            SpecImageState {
                                                palette: None,
                                                image: Some(
                                                    SpecImage {
                                                        width: w,
                                                        height: h,
                                                        palette: p,
                                                        raw: bytes,
                                                    },
                                                ),
                                                ..st
                                            },
                                        ),
                                    }
                                }
                            },
                            Option::Some(p0) => {
                                let to_read = ss - 4;
                                let spliced = p0.buf.subrange(0, p0.filled as int)
                                    + data.subrange(after + 4, after + 4 + to_read)
                                    + p0.buf.subrange(
                                    p0.filled + to_read,
                                    p0.buf.len() as int,
                                );
                                match st.palette {
                                    Option::None => Err(PgsError::MissingPalette),
                                    Option::Some(p) => spec_decode_time_image(
                                        data,
                                        after + ss,
                                        SpecImageState {
                                            palette: None,
                                            image: Some(
                                                SpecImage {
                                                    width: p0.width,
                                                    height: p0.height,
                                                    palette: p,
                                                    raw: spliced,
                                                },
                                            ),
                                            pending: None,
                                            ..st
                                        },
                                    ),
                                }
                            },
                        },
                    }
                } else if code is End {
                    match st.start {
                        Option::None => spec_decode_time_image(
                            data,
                            after,
                            SpecImageState { start: Some(t), ..st },
                        ),
                        Option::Some(sx) => {
                            let span = TimeSpan { start: sx, end: t };
                            match st.image {
                                Option::Some(img) => Ok(Some((span, img, after))),
                                Option::None => match st.palette {
                                    Option::Some(p) => Ok(
                                        Some(
                                            (
                                                span,
                                                SpecImage {
                                                    width: 0,
                                                    height: 0,
                                                    palette: p,
                                                    raw: Seq::empty(),
                                                },
                                                after,
                                            ),
                                        ),
                                    ),
                                    Option::None => Err(PgsError::MissingImage),
                                },
                            }
                        },
                    }
                } else {
                    if data.len() - after < ss {
                        Err(
                            PgsError::SegmentSkip {
                                source: crate::pgs::ReadError::FailedReadBuffer {
                                    buffer_size: ss as usize,
                                },
                                type_code: code,
                            },
                        )
                    } else {
                        spec_decode_time_image(data, after + ss, st)
                    }
                }
            },
        }
    }
}

/// The mathematical shape of a run-length encoded image value.
pub open spec fn spec_image_of(img: RleEncodedImage) -> SpecImage {
    SpecImage {
        width: img.spec_width(),
        height: img.spec_height(),
        palette: img.spec_palette().spec_entries(),
        raw: img.spec_raw(),
    }
}

/// Decoder that yields the display times and the image of each subtitle.
pub struct DecodeTimeImage {}

impl PgsDecoder for DecodeTimeImage {
    type Output = (TimeSpan, RleEncodedImage);

    open spec fn spec_parse(data: Seq<u8>, pos: int) -> Result<Option<int>, PgsError> {
        match spec_decode_time_image(data, pos, spec_image_state_init()) {
            Result::Ok(Option::Some((_, _, end))) => Ok(Some(end)),
            Result::Ok(Option::None) => Ok(None),
            Result::Err(e) => Err(e),
        }
    }

    open spec fn spec_output(data: Seq<u8>, pos: int, out: (TimeSpan, RleEncodedImage)) -> bool {
        match spec_decode_time_image(data, pos, spec_image_state_init()) {
            Result::Ok(Option::Some((span, si, _))) => out.0 == span && spec_image_of(out.1)
                == si && out.1.wf(),
            _ => false,
        }
    }

    fn parse_next(data: &[u8], pos: &mut usize) -> (res: Result<
        Option<(TimeSpan, RleEncodedImage)>,
        PgsError,
    >) {
        decode_time_image(data, pos)
    }
}

/// Decode the next display set with its image: PDS segments retain the
/// palette (last one wins), ODS segments drive the fragment reassembly,
/// and the closing END emits the span with the reassembled image — or,
/// when the set defined no object, with an empty image carrying the
/// retained palette.  Every emitted image carries a consistent palette.
/// The mathematical state the decoder's working variables stand for.
pub open spec fn spec_state_of(
    start: Option<TimePoint>,
    palette: Option<pds::Palette>,
    image: Option<RleEncodedImage>,
    pending: Option<ObjectDefinitionSegment>,
) -> SpecImageState {
    SpecImageState {
        start,
        palette: match palette {
            Option::Some(p) => Some(p.spec_entries()),
            Option::None => None,
        },
        image: match image {
            Option::Some(im) => Some(spec_image_of(im)),
            Option::None => None,
        },
        pending: match pending {
            Option::Some(ObjectDefinitionSegment::Partial { data: d, amount_of_data_read }) => Some(
                SpecPendingObject {
                    width: d.width,
                    height: d.height,
                    buf: d.object_data@,
                    filled: amount_of_data_read as nat,
                },
            ),
            _ => None,
        },
    }
}

/// The segment checks agree between the concrete pending value and its
/// mathematical shape.
proof fn lemma_ods_check_agree(
    data: Seq<u8>,
    pos: int,
    ss: int,
    cur: Option<ObjectDefinitionSegment>,
)
    requires
        match cur {
            Option::Some(ObjectDefinitionSegment::Complete(_)) => false,
            _ => true,
        },
    ensures
        crate::pgs::ods::spec_ods_check(data, pos, ss, cur) == spec_ods_check_pending(
            data,
            pos,
            ss,
            spec_state_of(None, None, None, cur).pending,
        ),
{
}

/// Decode the next display set with its image: PDS segments retain the
/// palette (last one wins), ODS segments drive the fragment reassembly,
/// and the closing END emits the span with the reassembled image — or,
/// when the set defined no object, with an empty image carrying the
/// retained palette.  The result is exactly what `spec_decode_time_image`
/// says of the bytes.
#[verifier::rlimit(100)]
pub fn decode_time_image(data: &[u8], pos: &mut usize) -> (res: Result<
    Option<(TimeSpan, RleEncodedImage)>,
    PgsError,
>)
    requires
        *old(pos) <= data@.len(),
    ensures
        *final(pos) <= data@.len(),
        match res {
            Result::Ok(Option::Some((span, img))) => img.wf() && spec_decode_time_image(
                data@,
                *old(pos) as int,
                spec_image_state_init(),
            ) == Ok::<Option<(TimeSpan, SpecImage, int)>, PgsError>(
                Some((span, spec_image_of(img), *final(pos) as int)),
            ),
            Result::Ok(Option::None) => spec_decode_time_image(
                data@,
                *old(pos) as int,
                spec_image_state_init(),
            ) == Ok::<Option<(TimeSpan, SpecImage, int)>, PgsError>(None),
            Result::Err(e) => spec_decode_time_image(
                data@,
                *old(pos) as int,
                spec_image_state_init(),
            ) == Err::<Option<(TimeSpan, SpecImage, int)>, PgsError>(e),
        },
{
    let mut start_time: Option<TimePoint> = None;
    let mut palette: Option<pds::Palette> = None;
    let mut image: Option<RleEncodedImage> = None;
    let mut prev_ods: Option<ObjectDefinitionSegment> = None;
    proof {
        assert(spec_state_of(None, None, None, None) =~= spec_image_state_init());
    }
    loop
        invariant
            *pos <= data@.len(),
            match palette {
                Option::Some(p) => p.wf(),
                Option::None => true,
            },
            match image {
                Option::Some(img) => img.wf(),
                Option::None => true,
            },
            match prev_ods {
                Option::Some(ObjectDefinitionSegment::Partial { data: d, amount_of_data_read }) => {
                    &&& d.object_data@.len() <= 0xffffff
                    &&& amount_of_data_read <= d.object_data@.len()
                },
                Option::Some(ObjectDefinitionSegment::Complete(_)) => false,
                Option::None => true,
            },
            spec_decode_time_image(data@, *old(pos) as int, spec_image_state_init())
                == spec_decode_time_image(
                data@,
                *pos as int,
                spec_state_of(start_time, palette, image, prev_ods),
            ),
        decreases data@.len() - *pos,
    {
        let ghost pos0 = *pos as int;
        let ghost st0 = spec_state_of(start_time, palette, image, prev_ods);
        let (header, after) = match read_header(data, *pos)? {
            Some(v) => v,
            None => {
                return Ok(None);
            },
        };
        *pos = after;
        match header.type_code() {
            SegmentTypeCode::Pds => {
                let seg_size = header.size() as usize;
                let (seg, next) = match pds::read(data, *pos, seg_size) {
                    Ok(v) => v,
                    Err(e) => {
                        return Err(PgsError::PDSParse(e));
                    },
                };
                *pos = next;
                palette = Some(seg.palette);
                proof {
                    assert(spec_state_of(start_time, palette, image, prev_ods)
                        =~= (SpecImageState {
                        palette: Some(
                            crate::pgs::pds::spec_pds_entries(
                                data@,
                                pos0 + 13 + 2,
                                ((seg_size - 2) as int / 5) as nat,
                            ),
                        ),
                        ..st0
                    }));
                }
            },
            SegmentTypeCode::Ods => {
                let seg_size = header.size() as usize;
                let pending = prev_ods;
                prev_ods = None;
                proof {
                    lemma_ods_check_agree(
                        data@,
                        *pos as int,
                        seg_size as int,
                        pending,
                    );
                }
                let (parsed, next) = match ods::read(data, *pos, seg_size, pending) {
                    Ok(v) => v,
                    Err(e) => {
                        return Err(PgsError::ODSParse(e));
                    },
                };
                *pos = next;
                match parsed {
                    ObjectDefinitionSegment::Complete(obj) => {
                        let pal = match palette {
                            Some(p) => p,
                            None => {
                                return Err(PgsError::MissingPalette);
                            },
                        };
                        palette = None;
                        let built = RleEncodedImage::new(
                            obj.width,
                            obj.height,
                            pal,
                            obj.object_data,
                        );
                        image = Some(built);
                        proof {
                            assert(spec_decode_time_image(data@, pos0, st0)
                                == spec_decode_time_image(
                                data@,
                                *pos as int,
                                spec_state_of(start_time, palette, image, prev_ods),
                            ));
                        }
                    },
                    partial => {
                        prev_ods = Some(partial);
                        proof {
                            let stv = spec_state_of(start_time, palette, image, prev_ods);
                            match (st0.pending, stv.pending) {
                                (Option::None, Option::Some(pnew)) => {
                                    let dl = crate::pgs::ods::spec_be24(data@, pos0 + 13 + 4);
                                    let rds = seg_size - 11;
                                    assert(pnew.buf =~= data@.subrange(
                                        pos0 + 13 + 11,
                                        pos0 + 13 + 11 + rds,
                                    ) + Seq::new((dl - 4 - rds) as nat, |i: int| 0u8));
                                },
                                _ => {},
                            }
                            assert(spec_decode_time_image(data@, pos0, st0)
                                == spec_decode_time_image(data@, *pos as int, stv));
                        }
                    },
                }
            },
            SegmentTypeCode::End => {
                let t = TimePoint::from_msecs(header.presentation_time() as i64);
                match start_time {
                    None => {
                        start_time = Some(t);
                    },
                    Some(s) => {
                        let times = TimeSpan::new(s, t);
                        match image {
                            Some(img) => {
                                return Ok(Some((times, img)));
                            },
                            None => {
                                // This display set defined no object:
                                // keep the timing with an empty image
                                // if a palette was retained.
                                let pal = match palette {
                                    Some(p) => p,
                                    None => {
                                        return Err(PgsError::MissingImage);
                                    },
                                };
                                let empty = RleEncodedImage::new(0, 0, pal, Vec::new());
                                proof {
                                    assert(spec_image_of(empty) =~= (SpecImage {
                                        width: 0,
                                        height: 0,
                                        palette: st0.palette->0,
                                        raw: Seq::empty(),
                                    }));
                                }
                                return Ok(Some((times, empty)));
                            },
                        }
                    },
                }
            },
            _ => {
                *pos = skip_segment(data, *pos, &header)?;
            },
        }
    }
}

} // verus!
