//! Decoding of bitmap subtitle streams.
//!
//! This library parses the two common bitmap subtitle container formats:
//! VobSub (an MPEG-2 Program Stream wrapping Packetized Elementary Stream
//! packets that carry DVD subpicture data) and PGS (the Blu-ray Presentation
//! Graphic Stream found in `.sup` files).  It produces time-bounded,
//! positioned, palettized images suitable for rendering or OCR.
//!
//! All parsing works over in-memory byte buffers; reading files and turning
//! decoded images into concrete bitmap formats is left to the embedding
//! application.

use vstd::prelude::*;

pub mod bits;
pub mod content;
pub mod image;
pub mod pgs;
pub mod srt;
pub mod time;
pub mod util;
pub mod webvtt;
pub mod vobsub;

verus! {

/// Top-level error of the library.
#[derive(Debug, Clone, Copy, PartialEq, Eq, Structural)]
pub enum SubtileError {
    /// Error while decoding a `VobSub` stream.
    VobSub(crate::vobsub::VobSubError),
    /// Error while decoding a Presentation Graphic Stream.
    Pgs(crate::pgs::PgsError),
}

} // verus!
