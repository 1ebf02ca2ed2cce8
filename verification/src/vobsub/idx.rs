//! The time rendering of `VobSub` index (`.idx`) files.
//!
//! The index file itself is line-oriented text read by the embedding
//! application; the palette line it carries is parsed by this crate's
//! palette module, and timestamps are written in the index file's form
//! with a colon before the milliseconds.

use crate::time::{spec_time_text, TimePoint};
use vstd::prelude::*;

verus! {

/// A time rendered the index-file way, with a colon before the
/// milliseconds.
#[derive(Debug, Clone, Copy, PartialEq, Eq, Structural)]
pub struct TimePointIdx(pub TimePoint);

impl TimePointIdx {
    /// Wrap a time for index-file rendering.
    pub fn from(value: TimePoint) -> (r: Self)
        ensures
            r.0 == value,
    {
        TimePointIdx(value)
    }

    /// The index-file text of the time.
    pub fn render(&self) -> (r: String)
        ensures
            r@ == spec_time_text(self.0.spec_msecs(), ':'),
    {
        self.0.fmt_separator(':')
    }
}

} // verus!
