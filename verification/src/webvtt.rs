//! Writing subtitles in WebVTT form: a time range with dot-separated
//! milliseconds, and the text.

use crate::time::{spec_time_text, TimePoint, TimeSpan};
use vstd::prelude::*;
use vstd::string::StringExecFns;

verus! {

/// A time rendered the WebVTT way, with a dot before the milliseconds.
#[derive(Debug, Clone, Copy, PartialEq, Eq, Structural)]
pub struct TimePointVtt(pub TimePoint);

impl TimePointVtt {
    /// Wrap a time for WebVTT rendering.
    pub fn from(value: TimePoint) -> (r: Self)
        ensures
            r.0 == value,
    {
        TimePointVtt(value)
    }

    /// The WebVTT text of the time.
    pub fn render(&self) -> (r: String)
        ensures
            r@ == spec_time_text(self.0.spec_msecs(), '.'),
    {
        self.0.fmt_separator('.')
    }
}

/// The text of one WebVTT cue: the time range, the text, and a blank
/// line.
pub open spec fn spec_vtt_line(time: TimeSpan, text: Seq<char>) -> Seq<char> {
    spec_time_text(time.start.spec_msecs(), '.') + seq![' ', '-', '-', '>', ' ']
        + spec_time_text(time.end.spec_msecs(), '.') + seq!['\n'] + text + seq!['\n', '\n']
}

/// Render one subtitle cue in WebVTT form.
pub fn write_line(time: &TimeSpan, text: &str) -> (r: String)
    ensures
        r@ == spec_vtt_line(*time, text@),
{
    let mut out = String::new();
    let start = time.start.fmt_separator('.');
    out.append(start.as_str());
    crate::time::push_char(&mut out, ' ');
    crate::time::push_char(&mut out, '-');
    crate::time::push_char(&mut out, '-');
    crate::time::push_char(&mut out, '>');
    crate::time::push_char(&mut out, ' ');
    let end = time.end.fmt_separator('.');
    out.append(end.as_str());
    crate::time::push_char(&mut out, '\n');
    out.append(text);
    crate::time::push_char(&mut out, '\n');
    crate::time::push_char(&mut out, '\n');
    proof {
        assert(out@ =~= spec_vtt_line(*time, text@));
    }
    out
}

} // verus!
