//! The run-length encoded image of a display set, and the lazy iterator
//! over its pixels.
//!
//! The byte-oriented code reads one run at a time: a nonzero byte is a
//! single pixel of that color; a zero byte opens a marker whose second
//! byte selects the count width and the color source; two zero bytes mark
//! an end of line and produce nothing.

use crate::pgs::pds::{spec_lookup, Palette, PaletteEntry};
use vstd::prelude::*;

verus! {

/// Store image data directly from the Presentation Graphic Stream: the
/// declared size, the palette retained for it, and the raw run-length
/// bytes.  Pixels are produced by iteration, never materialized unless
/// asked for.
#[derive(Debug, Clone)]
pub struct RleEncodedImage {
    width: u16,
    height: u16,
    palette: Palette,
    raw: Vec<u8>,
}

/// One run of the pixel stream at byte `pos`: the color id, the run
/// length, and the position after the run.  End-of-line markers and
/// zero-length runs produce nothing and are passed over; `None` when the
/// bytes run out (also in the middle of a run).
pub open spec fn spec_rle_run(data: Seq<u8>, pos: int) -> Option<(u8, nat, int)>
    decreases data.len() - pos,
{
    if pos < 0 || pos >= data.len() {
        None
    } else {
        let b0 = data[pos];
        if b0 != 0 {
            Some((b0, 1, pos + 1))
        } else if pos + 1 >= data.len() {
            None
        } else {
            let b1 = data[pos + 1];
            if b1 == 0 {
                spec_rle_run(data, pos + 2)
            } else {
                let long = b1 & 0x40 != 0;
                let colored = b1 & 0x80 != 0;
                let count_pos = pos + 2;
                let color_pos = if long {
                    pos + 3
                } else {
                    pos + 2
                };
                let end = if colored {
                    color_pos + 1
                } else {
                    color_pos
                };
                if end > data.len() {
                    None
                } else {
                    let count = if long {
                        (b1 & 0x3f) as nat * 256 + data[count_pos] as nat
                    } else {
                        (b1 & 0x3f) as nat
                    };
                    let color = if colored {
                        data[color_pos]
                    } else {
                        0
                    };
                    if count == 0 {
                        spec_rle_run(data, end)
                    } else {
                        Some((color, count, end))
                    }
                }
            }
        }
    }
}

/// A run starts at or after where the scan began and ends after it.
pub proof fn lemma_rle_run_advances(data: Seq<u8>, pos: int)
    ensures
        spec_rle_run(data, pos) is Some ==> pos < (spec_rle_run(data, pos)->0).2 <= data.len(),
        spec_rle_run(data, pos) is Some ==> (spec_rle_run(data, pos)->0).1 >= 1,
    decreases data.len() - pos,
{
    if 0 <= pos < data.len() {
        let b0 = data[pos];
        if b0 == 0 && pos + 1 < data.len() {
            let b1 = data[pos + 1];
            if b1 == 0 {
                lemma_rle_run_advances(data, pos + 2);
            } else {
                let long = b1 & 0x40 != 0;
                let colored = b1 & 0x80 != 0;
                let color_pos = if long {
                    pos + 3
                } else {
                    pos + 2
                };
                let end = if colored {
                    color_pos + 1
                } else {
                    color_pos
                };
                if end <= data.len() {
                    lemma_rle_run_advances(data, end);
                }
            }
        }
    }
}

/// The whole decoded pixel stream from byte `pos`: the color ids of every
/// run, expanded.
pub open spec fn spec_rle_pixels(data: Seq<u8>, pos: int) -> Seq<u8>
    decreases data.len() - pos,
    when true
    via spec_rle_pixels_decreases
{
    match spec_rle_run(data, pos) {
        Option::None => Seq::empty(),
        Option::Some((color, count, end)) => Seq::new(count, |i: int| color) + spec_rle_pixels(
            data,
            end,
        ),
    }
}

#[via_fn]
proof fn spec_rle_pixels_decreases(data: Seq<u8>, pos: int) {
    lemma_rle_run_advances(data, pos);
}

/// The pixel a color id shows through a palette: its luminance and
/// transparency, or white and fully transparent for an id the palette
/// does not cover.
pub open spec fn spec_pixel_of(entries: Seq<PaletteEntry>, id: u8) -> (u8, u8) {
    match spec_lookup(entries, id) {
        Option::Some(e) => (e.luminance, e.transparency),
        Option::None => (255, 0),
    }
}

impl RleEncodedImage {
    /// The declared width.
    pub closed spec fn spec_width(self) -> u16 {
        self.width
    }

    /// The declared height.
    pub closed spec fn spec_height(self) -> u16 {
        self.height
    }

    /// The retained palette.
    pub closed spec fn spec_palette(self) -> Palette {
        self.palette
    }

    /// The raw run-length bytes.
    pub closed spec fn spec_raw(self) -> Seq<u8> {
        self.raw@
    }

    /// The palette's lookup offset is consistent with its entries.
    pub open spec fn wf(self) -> bool {
        self.spec_palette().wf()
    }

    /// A well-formed object: its runs decode to exactly as many pixels as
    /// the declared size announces.
    pub open spec fn spec_covers_size(self) -> bool {
        spec_rle_pixels(self.spec_raw(), 0).len() == self.spec_width() as nat * self.spec_height()
            as nat
    }

    /// Bundle a declared size, a palette and raw run-length bytes.
    pub fn new(width: u16, height: u16, palette: Palette, raw: Vec<u8>) -> (r: Self)
        requires
            palette.wf(),
        ensures
            r.spec_width() == width,
            r.spec_height() == height,
            r.spec_palette() == palette,
            r.spec_raw() == raw@,
            r.wf(),
    {
        RleEncodedImage { width, height, palette, raw }
    }

    /// The declared width.
    pub fn width(&self) -> (r: u32)
        ensures
            r == self.spec_width() as u32,
    {
        self.width as u32
    }

    /// The declared height.
    pub fn height(&self) -> (r: u32)
        ensures
            r == self.spec_height() as u32,
    {
        self.height as u32
    }

    /// Iterate over the pixels of the image, each converted through the
    /// palette to a luminance and transparency pair.
    pub fn pixels<'a>(&'a self) -> (r: RlePixelIterator<'a>)
        requires
            self.wf(),
        ensures
            r.wf(),
            r@ == spec_rle_pixels(self.spec_raw(), 0).map_values(
                |id: u8| spec_pixel_of(self.spec_palette().spec_entries(), id),
            ),
            r.spec_image() == self,
    {
        proof {
            assert(Seq::new(0, |i: int| (0u8, 0u8)) + spec_rle_pixels(self.raw@, 0).map_values(
                |id: u8| spec_pixel_of(self.palette.spec_entries(), id),
            ) =~= spec_rle_pixels(self.raw@, 0).map_values(
                |id: u8| spec_pixel_of(self.palette.spec_entries(), id),
            ));
        }
        RlePixelIterator { image: self, pos: 0, current: (0, 0), remaining: 0 }
    }
}

/// The lazy iterator over the pixels of a run-length encoded image.
pub struct RlePixelIterator<'a> {
    image: &'a RleEncodedImage,
    pos: usize,
    current: (u8, u8),
    remaining: u16,
}

impl<'a> View for RlePixelIterator<'a> {
    type V = Seq<(u8, u8)>;

    /// The pixels the iterator has yet to produce.
    closed spec fn view(&self) -> Seq<(u8, u8)> {
        Seq::new(self.remaining as nat, |i: int| self.current) + spec_rle_pixels(
            self.image.spec_raw(),
            self.pos as int,
        ).map_values(
            |id: u8| spec_pixel_of(self.image.spec_palette().spec_entries(), id),
        )
    }
}

impl<'a> RlePixelIterator<'a> {
    /// The image the iterator walks.
    pub closed spec fn spec_image(self) -> RleEncodedImage {
        *self.image
    }

    /// The cursor is inside the raw bytes and the palette is consistent.
    pub closed spec fn wf(self) -> bool {
        self.pos <= self.image.spec_raw().len() && self.image.wf()
    }

    /// How many pixels a well-formed object will produce in total: the
    /// declared width times the declared height.
    pub fn size_hint(&self) -> (r: usize)
        ensures
            r == self.spec_image().spec_width() as nat * self.spec_image().spec_height() as nat,
    {
        let w = self.image.width() as u64;
        let h = self.image.height() as u64;
        proof {
            assert(w * h <= 0xffff * 0xffff) by (nonlinear_arith)
                requires
                    0 <= w <= 0xffff && 0 <= h <= 0xffff,
            ;
        }
        (w * h) as usize
    }

    /// The next pixel: the remainder of the current run, or the first
    /// pixel of the next run; `None` once the bytes are exhausted.
    pub fn next(&mut self) -> (r: Option<(u8, u8)>)
        requires
            old(self).wf(),
        ensures
            final(self).wf(),
            final(self).spec_image() == old(self).spec_image(),
            match r {
                Option::Some(px) => old(self)@.len() > 0 && px == old(self)@[0] && final(self)@
                    == old(self)@.drop_first(),
                Option::None => old(self)@.len() == 0 && final(self)@.len() == 0,
            },
    {
        if self.remaining > 0 {
            self.remaining = self.remaining - 1;
            proof {
                assert(final(self)@ =~= old(self)@.drop_first());
            }
            return Some(self.current);
        }
        match read_next_pixel(self.image.raw.as_slice(), self.pos) {
            Some((color, count, end)) => {
                let entry = self.image.palette.get(color);
                let px = match entry {
                    Some(e) => (e.luminance, e.transparency),
                    None => (255u8, 0u8),
                };
                self.current = px;
                self.pos = end;
                self.remaining = count - 1;
                proof {
                    let ids = spec_rle_pixels(old(self).spec_image().spec_raw(), old(self).pos as int);
                    let conv = |id: u8| spec_pixel_of(
                        old(self).spec_image().spec_palette().spec_entries(),
                        id,
                    );
                    assert(ids =~= Seq::new(count as nat, |i: int| color) + spec_rle_pixels(
                        old(self).spec_image().spec_raw(),
                        end as int,
                    ));
                    assert(old(self)@ =~= ids.map_values(conv));
                    assert(old(self)@[0] == conv(color));
                    assert(final(self)@ =~= old(self)@.drop_first());
                }
                Some(px)
            },
            None => {
                proof {
                    assert(old(self)@.len() == 0);
                    assert(final(self)@.len() == 0);
                }
                None
            },
        }
    }
}

/// Read the next run at byte `pos`: its color id, its length and the
/// position after it, passing over end-of-line markers and empty runs.
fn read_next_pixel(data: &[u8], pos: usize) -> (r: Option<(u8, u16, usize)>)
    requires
        pos <= data@.len(),
    ensures
        match r {
            Option::Some((color, count, end)) => spec_rle_run(data@, pos as int) == Some(
                (color, count as nat, end as int),
            ) && count >= 1 && pos < end <= data@.len(),
            Option::None => spec_rle_run(data@, pos as int) is None,
        },
{
    let n = data.len();
    let mut p = pos;
    loop
        invariant
            pos <= p <= n,
            n == data@.len(),
            spec_rle_run(data@, pos as int) == spec_rle_run(data@, p as int),
            pos <= p,
        decreases n - p,
    {
        if p >= n {
            return None;
        }
        let b0 = data[p];
        if b0 != 0 {
            proof {
                lemma_rle_run_advances(data@, pos as int);
            }
            return Some((b0, 1, p + 1));
        }
        if p + 1 >= n {
            return None;
        }
        let b1 = data[p + 1];
        if b1 == 0 {
            p = p + 2;
            continue ;
        }
        let long = b1 & 0x40 != 0;
        let colored = b1 & 0x80 != 0;
        let needed: usize = if long {
            if colored {
                4
            } else {
                3
            }
        } else {
            if colored {
                3
            } else {
                2
            }
        };
        if n - p < needed {
            return None;
        }
        let color_pos = if long {
            p + 3
        } else {
            p + 2
        };
        let end = if colored {
            color_pos + 1
        } else {
            color_pos
        };
        let count: u16 = if long {
            ((b1 & 0x3f) as u16) * 256 + (data[p + 2] as u16)
        } else {
            (b1 & 0x3f) as u16
        };
        let color: u8 = if colored {
            data[color_pos]
        } else {
            0
        };
        if count == 0 {
            p = end;
            continue ;
        }
        proof {
            lemma_rle_run_advances(data@, pos as int);
        }
        return Some((color, count, end));
    }
}

/// A well-formed object produces exactly as many pixels as its declared
/// size announces: the length reported beside the iterator equals the
/// number of pixels it emits.
pub proof fn lemma_rle_pixel_count(img: RleEncodedImage)
    requires
        img.wf(),
        img.spec_covers_size(),
    ensures
        spec_rle_pixels(img.spec_raw(), 0).map_values(
            |id: u8| spec_pixel_of(img.spec_palette().spec_entries(), id),
        ).len() == img.spec_width() as nat * img.spec_height() as nat,
{
}

} // verus!
