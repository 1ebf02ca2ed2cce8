//! Decoding of Blu-ray Presentation Graphic Stream (`.sup`) subtitles:
//! a sequence of segments reassembling palette and object data into
//! time-bounded, run-length encoded images.

use vstd::prelude::*;

pub mod decoder;
pub mod ods;
pub mod pds;
pub mod pgs_image;
pub mod segment;
pub mod sup;
pub mod u24;

verus! {

/// Error from reading data out of the in-memory stream.
#[derive(Debug, Clone, Copy, PartialEq, Eq, Structural)]
pub enum ReadError {
    /// Fewer bytes remained than a read of this size needed.
    FailedReadBuffer {
        /// The size of the read that failed.
        buffer_size: usize,
    },
}

/// Error for Presentation Graphic Stream handling.
#[derive(Debug, Clone, Copy, PartialEq, Eq, Structural)]
pub enum PgsError {
    /// An Object Definition Segment could not be parsed.
    ODSParse(crate::pgs::ods::OdsError),
    /// A Palette Definition Segment could not be parsed.
    PDSParse(crate::pgs::pds::PdsError),
    /// An invalid segment type code value.
    SegmentInvalidTypeCode {
        /// The value that is not a segment type.
        value: u8,
    },
    /// A segment header was cut off by the end of the stream.
    SegmentFailReadHeader,
    /// The `PG` magic number was missing at a segment boundary.
    SegmentPGMissing,
    /// Skipping over a segment ran past the end of the stream.
    SegmentSkip {
        /// The read failure underneath.
        source: ReadError,
        /// The type code of the segment being skipped.
        type_code: crate::pgs::segment::SegmentTypeCode,
    },
    /// A display set closed without defining an image or a palette.
    MissingImage,
    /// An object completed while no palette was retained.
    MissingPalette,
}

} // verus!
