//! Decoding of DVD `VobSub` subtitles: an MPEG-2 Program Stream (the binary
//! `.sub` file) carrying Packetized Elementary Stream packets with DVD
//! subpicture data.

use vstd::prelude::*;

pub mod clock;
pub mod idx;
pub mod img;
pub mod palette;
pub mod pes;
pub mod probe;
pub mod ps;
pub mod sub;

verus! {

/// How a binary parser of this module failed.
#[derive(Debug, Clone, Copy, PartialEq, Eq, Structural)]
pub enum ParseError {
    /// The input ended before the construct was complete.
    Incomplete,
    /// The bytes at the cursor do not form the expected construct.
    Invalid,
}

/// Errors for missing subtitle parts after interpreting all control
/// sequences of a subpicture.
#[derive(Debug, Clone, Copy, PartialEq, Eq, Structural)]
pub enum ErrorMissing {
    /// No start time.
    StartTime,
    /// No area coordinates.
    Area,
    /// No palette.
    Palette,
    /// No alpha palette.
    AlphaPalette,
    /// No RLE offsets.
    RleOffset,
}

/// Error for `VobSub` handling.
#[derive(Debug, Clone, Copy, PartialEq, Eq, Structural)]
pub enum VobSubError {
    /// Error with content values.
    Content(crate::content::ContentError),
    /// An invalid number of palette entries was found.
    PaletteInvalidEntriesNumbers(usize),
    /// Parsing of a palette text failed.
    PaletteError(ParseError),
    /// Scan line offsets out of order or beyond the control data.
    InvalidScanLineOffsets {
        /// Offset of the first (even) scan-line stream.
        start_0: usize,
        /// Offset of the second (odd) scan-line stream.
        start_1: usize,
        /// End of the RLE data region.
        end: usize,
    },
    /// The buffer is too small to read a 16-bit size from.
    BufferTooSmallForU16,
    /// The buffer is too small to hold a subtitle at all.
    UnexpectedEndOfSubtitleData,
    /// A control sequence could not be parsed.
    ControlSequence(ParseError),
    /// A control-sequence offset pointed backwards.
    ControlOffsetWentBackwards,
    /// A control-sequence offset pointed past the end of the packet.
    ControlOffsetBiggerThanPacket {
        /// The offending control offset.
        offset: usize,
        /// The packet size it exceeds.
        packet: usize,
    },
    /// A PES packet could not be parsed.
    PESPacket(ParseError),
    /// A control packet ended before its terminator.
    IncompleteControlPacket,
    /// A packet too short even to hold its own size field.
    PacketTooShort,
    /// A subtitle whose first PES packet carries no timing information.
    MissingTimingForSubtitle,
    /// A required part was missing after interpreting the control data.
    MissingSubtitleParsing(ErrorMissing),
    /// The subpicture image data could not be decompressed.
    Image(crate::vobsub::img::ImgError),
}

} // verus!
