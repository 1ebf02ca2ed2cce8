//! Writing subtitles in SubRip (`.srt`) form: a line number, a time range
//! with comma-separated milliseconds, and the text.

use crate::time::{spec_decimal, spec_time_text, TimePoint, TimeSpan};
use vstd::prelude::*;
use vstd::string::StringExecFns;

verus! {

/// A time rendered the SubRip way, with a comma before the milliseconds.
#[derive(Debug, Clone, Copy, PartialEq, Eq, Structural)]
pub struct TimePointSrt(pub TimePoint);

impl TimePointSrt {
    /// Wrap a time for SubRip rendering.
    pub fn from(value: TimePoint) -> (r: Self)
        ensures
            r.0 == value,
    {
        TimePointSrt(value)
    }

    /// The SubRip text of the time.
    pub fn render(&self) -> (r: String)
        ensures
            r@ == spec_time_text(self.0.spec_msecs(), ','),
    {
        self.0.fmt_separator(',')
    }
}

/// The text of one SubRip block: the line number, the time range and the
/// subtitle text, each on its own line.
pub open spec fn spec_srt_line(line_idx: int, time: TimeSpan, text: Seq<char>) -> Seq<char> {
    spec_decimal(line_idx) + seq!['\n'] + spec_time_text(time.start.spec_msecs(), ',') + seq![
        ' ',
        '-',
        '-',
        '>',
        ' ',
    ] + spec_time_text(time.end.spec_msecs(), ',') + seq!['\n'] + text + seq!['\n']
}

/// Render one subtitle block in SubRip form.
pub fn write_line(line_idx: usize, time: &TimeSpan, text: &str) -> (r: String)
    ensures
        r@ == spec_srt_line(line_idx as int, *time, text@),
{
    let mut out = String::new();
    crate::time::push_decimal(&mut out, line_idx as u64);
    crate::time::push_char(&mut out, '\n');
    let start = time.start.fmt_separator(',');
    out.append(start.as_str());
    crate::time::push_char(&mut out, ' ');
    crate::time::push_char(&mut out, '-');
    crate::time::push_char(&mut out, '-');
    crate::time::push_char(&mut out, '>');
    crate::time::push_char(&mut out, ' ');
    let end = time.end.fmt_separator(',');
    out.append(end.as_str());
    crate::time::push_char(&mut out, '\n');
    out.append(text);
    crate::time::push_char(&mut out, '\n');
    proof {
        assert(out@ =~= spec_srt_line(line_idx as int, *time, text@));
    }
    out
}

/// The text of a whole SubRip file: the blocks of all subtitles from
/// `idx` on, numbered consecutively from one.
pub open spec fn spec_srt_text(subtitles: Seq<(TimeSpan, Seq<char>)>, idx: int) -> Seq<char>
    decreases subtitles.len() - idx,
{
    if idx < 0 || idx >= subtitles.len() {
        Seq::empty()
    } else {
        spec_srt_line(idx + 1, subtitles[idx].0, subtitles[idx].1) + spec_srt_text(
            subtitles,
            idx + 1,
        )
    }
}

/// Render subtitles as a whole SubRip file, numbering the blocks from
/// one.
pub fn write_srt(subtitles: &Vec<(TimeSpan, String)>) -> (r: String)
    ensures
        r@ == spec_srt_text(
            subtitles@.map_values(|s: (TimeSpan, String)| (s.0, s.1@)),
            0,
        ),
{
    let ghost mapped = subtitles@.map_values(|s: (TimeSpan, String)| (s.0, s.1@));
    let mut out = String::new();
    let mut i: usize = 0;
    while i < subtitles.len()
        invariant
            i <= subtitles@.len(),
            mapped == subtitles@.map_values(|s: (TimeSpan, String)| (s.0, s.1@)),
            spec_srt_text(mapped, 0) == out@ + spec_srt_text(mapped, i as int),
        decreases subtitles@.len() - i,
    {
        let ghost before = out@;
        let entry = &subtitles[i];
        let line = write_line(i + 1, &entry.0, entry.1.as_str());
        out.append(line.as_str());
        proof {
            assert(before + (spec_srt_line(i + 1 as int, mapped[i as int].0, mapped[i as int].1)
                + spec_srt_text(mapped, i as int + 1)) =~= out@ + spec_srt_text(
                mapped,
                i as int + 1,
            ));
        }
        i = i + 1;
    }
    proof {
        assert(out@ + Seq::<char>::empty() =~= out@);
    }
    out
}

} // verus!
