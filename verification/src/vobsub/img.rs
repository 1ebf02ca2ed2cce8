//! Run-length encoded image data for `VobSub` subtitles.
//!
//! A subpicture carries two interlaced streams of scan lines, each a
//! sequence of variable-length run codes over a bit cursor.  The decoder
//! turns them into a row-major buffer with one 2-bit pixel per byte.

use crate::bits::{bits_val, BitReader};
use crate::content::{Area, Size};
use crate::vobsub::{ParseError, VobSubError};
use vstd::arithmetic::power2::pow2;
use vstd::prelude::*;

verus! {

/// Errors of `VobSub` image decompression.
#[derive(Debug, Clone, Copy, PartialEq, Eq, Structural)]
pub enum ImgError {
    /// An output buffer is smaller than the data to be written into it.
    ToSmallOutput {
        /// The size of the data.
        data_size: usize,
        /// The size of the output.
        output_size: usize,
    },
    /// A decoded run would reach past the width of the scan line.
    ScanLineLongerThanWidth {
        /// The line position the run would reach.
        x: usize,
        /// The image width.
        width: usize,
    },
    /// The scan-line bit stream ended in the middle of a run code.
    ScanLineParsing(ParseError),
}

/// The two interlaced scan-line streams of one subpicture.
#[derive(Debug)]
pub struct VobSubRleImageData<'a> {
    /// The stream of even scan lines.
    even: &'a [u8],
    /// The stream of odd scan lines.
    odd: &'a [u8],
}

impl<'a> VobSubRleImageData<'a> {
    /// The bytes of the even scan-line stream.
    pub closed spec fn spec_even(self) -> Seq<u8> {
        self.even@
    }

    /// The bytes of the odd scan-line stream.
    pub closed spec fn spec_odd(self) -> Seq<u8> {
        self.odd@
    }

    /// Cut the two scan-line streams out of the subpicture buffer.  Each
    /// runs from its offset to the start of the control data; succeeds
    /// exactly when the offsets are ordered and inside the buffer.
    pub fn new(raw_data: &'a [u8], rle_offsets: [u16; 2], end: usize) -> (res: Result<
        Self,
        VobSubError,
    >)
        ensures
            res is Ok <==> rle_offsets[0] <= rle_offsets[1] && rle_offsets[1] <= end && end
                <= raw_data@.len(),
            res is Ok ==> res->Ok_0.spec_even() == raw_data@.subrange(rle_offsets[0] as int, end as int)
                && res->Ok_0.spec_odd() == raw_data@.subrange(rle_offsets[1] as int, end as int),
            res is Err ==> res->Err_0 == (VobSubError::InvalidScanLineOffsets {
                start_0: rle_offsets[0] as usize,
                start_1: rle_offsets[1] as usize,
                end,
            }),
    {
        let start_0 = rle_offsets[0] as usize;
        let start_1 = rle_offsets[1] as usize;
        if start_0 > start_1 || start_1 > end || end > raw_data.len() {
            Err(VobSubError::InvalidScanLineOffsets { start_0, start_1, end })
        } else {
            Ok(
                VobSubRleImageData {
                    even: vstd::slice::slice_subrange(raw_data, start_0, end),
                    odd: vstd::slice::slice_subrange(raw_data, start_1, end),
                },
            )
        }
    }
}

/// One run-length code, decoded from the bit stream at `pos`: the run
/// count (0 means fill to the end of the line), the 2-bit pixel value, and
/// the bit position after the code.  `None` when the bits run out.
///
/// The code is read longest-match first: a nonzero leading 2-bit group is
/// itself the count; otherwise up to three zero groups widen the count
/// field to 4, 6 or 8 bits, and fourteen zero bits mean fill-to-end.
pub open spec fn spec_rle(data: Seq<u8>, pos: int) -> Option<(nat, nat, int)> {
    let len8 = 8 * data.len();
    if pos + 2 > len8 {
        None
    } else if bits_val(data, pos, 2) != 0 {
        spec_rle_val(data, pos + 2, bits_val(data, pos, 2))
    } else if pos + 4 > len8 {
        None
    } else if bits_val(data, pos + 2, 2) != 0 {
        if pos + 6 <= len8 {
            spec_rle_val(data, pos + 6, bits_val(data, pos + 2, 4))
        } else {
            None
        }
    } else if pos + 6 > len8 {
        None
    } else if bits_val(data, pos + 4, 2) != 0 {
        if pos + 10 <= len8 {
            spec_rle_val(data, pos + 10, bits_val(data, pos + 4, 6))
        } else {
            None
        }
    } else if pos + 14 > len8 {
        None
    } else {
        spec_rle_val(data, pos + 14, bits_val(data, pos + 6, 8))
    }
}

/// The 2-bit pixel value following a run count at bit position `pos`.
pub open spec fn spec_rle_val(data: Seq<u8>, pos: int, cnt: nat) -> Option<(nat, nat, int)> {
    if pos + 2 <= 8 * data.len() {
        Some((cnt, bits_val(data, pos, 2), pos + 2))
    } else {
        None
    }
}

/// Read one run-length code from the bit cursor.
fn rle(r: &mut BitReader) -> (res: Option<(u16, u8)>)
    requires
        old(r).wf(),
    ensures
        final(r).wf(),
        final(r).spec_data() == old(r).spec_data(),
        match res {
            Option::Some((cnt, val)) => spec_rle(old(r).spec_data(), old(r).spec_pos())
                == Some((cnt as nat, val as nat, final(r).spec_pos())) && cnt <= 255 && val < 4,
            Option::None => spec_rle(old(r).spec_data(), old(r).spec_pos()) is None,
        },
{
    proof {
        vstd::arithmetic::power2::lemma2_to64();
    }
    let g1 = match r.read_bits(2) {
        Some(v) => v,
        None => {
            return None;
        },
    };
    let cnt: u16 = if g1 != 0 {
        g1 as u16
    } else {
        let g2 = match r.read_bits(2) {
            Some(v) => v,
            None => {
                return None;
            },
        };
        if g2 != 0 {
            let low = match r.read_bits(2) {
                Some(v) => v,
                None => {
                    return None;
                },
            };
            proof {
                lemma_bits_val_concat(old(r).spec_data(), old(r).spec_pos() + 2, 2, 2);
            }
            (g2 * 4 + low) as u16
        } else {
            let g3 = match r.read_bits(2) {
                Some(v) => v,
                None => {
                    return None;
                },
            };
            if g3 != 0 {
                let low = match r.read_bits(4) {
                    Some(v) => v,
                    None => {
                        return None;
                    },
                };
                proof {
                    lemma_bits_val_concat(old(r).spec_data(), old(r).spec_pos() + 4, 2, 4);
                }
                (g3 * 16 + low) as u16
            } else {
                let v8 = match r.read_bits(8) {
                    Some(v) => v,
                    None => {
                        return None;
                    },
                };
                v8 as u16
            }
        }
    };
    let val = match r.read_bits(2) {
        Some(v) => v,
        None => {
            return None;
        },
    };
    Some((cnt, val as u8))
}

/// Two adjacent bit runs concatenate: the value of the long run is the
/// high part shifted up by the width of the low part, plus the low part.
pub proof fn lemma_bits_val_concat(data: Seq<u8>, start: int, hi: nat, lo: nat)
    ensures
        bits_val(data, start, hi + lo) == bits_val(data, start, hi) * pow2(lo) + bits_val(
            data,
            start + hi,
            lo,
        ),
    decreases lo,
{
    if lo == 0 {
        vstd::arithmetic::power2::lemma2_to64();
    } else {
        lemma_bits_val_concat(data, start, hi, (lo - 1) as nat);
        vstd::arithmetic::power2::lemma_pow2_unfold(lo);
        let b = bits_val(data, start, hi);
        let p1 = pow2((lo - 1) as nat);
        let p = pow2(lo);
        assert(b * p1 * 2 == b * p) by (nonlinear_arith)
            requires
                p == 2 * p1,
        ;
        assert(bits_val(data, start, hi + lo) == bits_val(data, start, (hi + lo - 1) as nat) * 2
            + crate::bits::spec_bit(data, start + hi + lo - 1) as nat);
        assert(bits_val(data, start + hi, lo) == bits_val(data, start + hi, (lo - 1) as nat) * 2
            + crate::bits::spec_bit(data, start + hi + lo - 1) as nat);
    }
}

/// How decoding one scan line of `rem` remaining pixels from bit position
/// `pos` resolves.
pub ghost enum ScanOutcome {
    /// The decoded pixels and the bit position after the line.
    Line(Seq<u8>, int),
    /// A run reached past the end of the line; the payload is the line
    /// position the run would have reached.
    TooLong(int),
    /// The bit stream ended in the middle of a run code.
    Cut,
}

/// Decode one scan line: runs are read and expanded until the line is
/// full; a zero count fills the rest of the line.
pub open spec fn spec_scan_line(data: Seq<u8>, pos: int, rem: nat) -> ScanOutcome
    decreases rem,
{
    if rem == 0 {
        ScanOutcome::Line(Seq::empty(), pos)
    } else {
        match spec_rle(data, pos) {
            Option::None => ScanOutcome::Cut,
            Option::Some((cnt, val, p2)) => {
                let count = if cnt == 0 {
                    rem
                } else {
                    cnt
                };
                if count > rem {
                    ScanOutcome::TooLong(count as int)
                } else {
                    match spec_scan_line(data, p2, (rem - count) as nat) {
                        ScanOutcome::Line(s, e) => ScanOutcome::Line(
                            Seq::new(count, |i: int| val as u8) + s,
                            e,
                        ),
                        ScanOutcome::TooLong(ds) => ScanOutcome::TooLong(count + ds),
                        ScanOutcome::Cut => ScanOutcome::Cut,
                    }
                }
            },
        }
    }
}

/// Decompress one scan line of `width` pixels from the start of `data`.
/// On success the row holds exactly `width` pixels, each a 2-bit value,
/// and the number of bytes consumed (the bit cursor rounded up to the next
/// byte boundary) is returned beside it.
#[verifier::rlimit(100)]
pub fn scan_line(data: &[u8], width: usize) -> (res: Result<(Vec<u8>, usize), ImgError>)
    requires
        width <= u16::MAX as usize,
    ensures
        match spec_scan_line(data@, 0, width as nat) {
            ScanOutcome::Line(s, e) => {
                &&& res is Ok
                &&& res->Ok_0.0@ == s
                &&& res->Ok_0.0@.len() == width
                &&& forall|i: int| 0 <= i < s.len() ==> s[i] < 4
                &&& res->Ok_0.1 == if e % 8 == 0 {
                    e / 8
                } else {
                    e / 8 + 1
                }
                &&& res->Ok_0.1 <= data@.len()
            },
            ScanOutcome::TooLong(ds) => res == Err::<(Vec<u8>, usize), ImgError>(
                ImgError::ScanLineLongerThanWidth { x: ds as usize, width },
            ),
            ScanOutcome::Cut => res == Err::<(Vec<u8>, usize), ImgError>(
                ImgError::ScanLineParsing(ParseError::Incomplete),
            ),
        },
{
    let mut row: Vec<u8> = Vec::new();
    let mut r = BitReader::new(data);
    proof {
        vstd::arithmetic::power2::lemma2_to64();
    }
    while row.len() < width
        invariant
            r.wf(),
            r.spec_data() == data@,
            width <= u16::MAX as usize,
            row@.len() <= width,
            forall|i: int| 0 <= i < row@.len() ==> row@[i] < 4,
            spec_scan_line(data@, 0, width as nat) == match spec_scan_line(
                data@,
                r.spec_pos(),
                (width - row@.len()) as nat,
            ) {
                ScanOutcome::Line(s, e) => ScanOutcome::Line(row@ + s, e),
                ScanOutcome::TooLong(ds) => ScanOutcome::TooLong(row@.len() + ds),
                ScanOutcome::Cut => ScanOutcome::Cut,
            },
        decreases width - row.len(),
    {
        let ghost rem = (width - row@.len()) as nat;
        let ghost pos0 = r.spec_pos();
        let ghost row0 = row@;
        let (cnt, val) = match rle(&mut r) {
            Some(v) => v,
            None => {
                return Err(ImgError::ScanLineParsing(ParseError::Incomplete));
            },
        };
        let x = row.len();
        let count: usize = if cnt == 0 {
            width - x
        } else {
            cnt as usize
        };
        if count > width - x {
            assert(cnt != 0 && count == cnt && count <= 255);
            return Err(ImgError::ScanLineLongerThanWidth { x: x + count, width });
        }
        let mut k: usize = 0;
        while k < count
            invariant
                k <= count,
                row@.len() == row0.len() + k,
                row@ == row0 + Seq::new(k as nat, |i: int| val),
                val < 4,
                r.wf(),
                r.spec_data() == data@,
                count + row0.len() <= width,
            decreases count - k,
        {
            row.push(val);
            proof {
                assert(row@ =~= row0 + Seq::new((k + 1) as nat, |i: int| val));
            }
            k = k + 1;
        }
        proof {
            let piece = Seq::new(count as nat, |i: int| val);
            let inner = spec_scan_line(data@, r.spec_pos(), (rem - count) as nat);
            assert((rem - count) as nat == (width - row@.len()) as nat);
            match inner {
                ScanOutcome::Line(s, e) => {
                    assert(row0 + (piece + s) =~= row@ + s);
                },
                ScanOutcome::TooLong(ds) => {
                    assert(row0.len() + (count + ds) == row@.len() + ds);
                },
                ScanOutcome::Cut => {},
            }
        }
    }
    proof {
        assert(row@ + Seq::<u8>::empty() =~= row@);
    }
    let consumed = r.bytes_consumed();
    Ok((row, consumed))
}

/// Decode `rows` scan lines of `w` pixels, alternating between stream `a`
/// (from byte offset `oa`) and stream `b` (from `ob`), the streams and
/// offsets swapping roles on each row.  `None` when any line fails.
pub open spec fn spec_decompress(
    a: Seq<u8>,
    b: Seq<u8>,
    oa: int,
    ob: int,
    w: nat,
    rows: nat,
) -> Option<Seq<u8>>
    decreases rows,
{
    if rows == 0 {
        Some(Seq::empty())
    } else {
        match spec_scan_line(a.subrange(oa, a.len() as int), 0, w) {
            ScanOutcome::Line(s, e) => {
                let c = if e % 8 == 0 {
                    e / 8
                } else {
                    e / 8 + 1
                };
                match spec_decompress(b, a, ob, oa + c, w, (rows - 1) as nat) {
                    Option::Some(rest) => Some(s + rest),
                    Option::None => None,
                }
            },
            _ => None,
        }
    }
}

/// Unfolding of one decoding step: a decoded line contributes its pixels
/// and advances its stream's offset, the streams then swapping roles.
proof fn lemma_decompress_step(
    a: Seq<u8>,
    b: Seq<u8>,
    oa: int,
    ob: int,
    w: nat,
    rows: nat,
)
    requires
        rows > 0,
    ensures
        spec_decompress(a, b, oa, ob, w, rows) == match spec_scan_line(
            a.subrange(oa, a.len() as int),
            0,
            w,
        ) {
            ScanOutcome::Line(s, e) => {
                let c = if e % 8 == 0 {
                    e / 8
                } else {
                    e / 8 + 1
                };
                match spec_decompress(b, a, ob, oa + c, w, (rows - 1) as nat) {
                    Option::Some(rest) => Some(s + rest),
                    Option::None => None,
                }
            },
            _ => None::<Seq<u8>>,
        },
{
}

/// Decompress a run-length encoded image into a vector in row-major
/// order, one byte per 2-bit pixel: even scan lines come from the even
/// stream, odd lines from the odd stream.  On success the buffer holds
/// exactly `width * height` pixels, each below 4.
#[verifier::rlimit(100)]
pub fn decompress(size: Size, data: &VobSubRleImageData) -> (res: Result<Vec<u8>, ImgError>)
    requires
        size.w <= u16::MAX as usize,
        size.w * size.h <= usize::MAX as int,
    ensures
        match spec_decompress(
            data.spec_even(),
            data.spec_odd(),
            0,
            0,
            size.w as nat,
            size.h as nat,
        ) {
            Option::Some(img) => {
                &&& res is Ok
                &&& res->Ok_0@ == img
                &&& res->Ok_0@.len() == size.w * size.h
                &&& forall|i: int| 0 <= i < img.len() ==> img[i] < 4
            },
            Option::None => res is Err && (res->Err_0 is ScanLineLongerThanWidth || res->Err_0
                is ScanLineParsing),
        },
{
    let mut img: Vec<u8> = Vec::new();
    let mut off_even: usize = 0;
    let mut off_odd: usize = 0;
    let mut y: usize = 0;
    proof {
        assert(img@ + Seq::<u8>::empty() =~= img@);
    }
    while y < size.h
        invariant
            y <= size.h,
            size.w <= u16::MAX as usize,
            size.w * size.h <= usize::MAX as int,
            off_even <= data.spec_even().len(),
            off_odd <= data.spec_odd().len(),
            img@.len() == y * size.w,
            forall|i: int| 0 <= i < img@.len() ==> img@[i] < 4,
            spec_decompress(
                data.spec_even(),
                data.spec_odd(),
                0,
                0,
                size.w as nat,
                size.h as nat,
            ) == match (if y % 2 == 0 {
                spec_decompress(
                    data.spec_even(),
                    data.spec_odd(),
                    off_even as int,
                    off_odd as int,
                    size.w as nat,
                    (size.h - y) as nat,
                )
            } else {
                spec_decompress(
                    data.spec_odd(),
                    data.spec_even(),
                    off_odd as int,
                    off_even as int,
                    size.w as nat,
                    (size.h - y) as nat,
                )
            }) {
                Option::Some(rest) => Some(img@ + rest),
                Option::None => None::<Seq<u8>>,
            },
        decreases size.h - y,
    {
        let ghost img0 = img@;
        let stream: &[u8] = if y % 2 == 0 {
            data.even
        } else {
            data.odd
        };
        let off: usize = if y % 2 == 0 {
            off_even
        } else {
            off_odd
        };
        let tail: &[u8] = vstd::slice::slice_subrange(stream, off, stream.len());
        let (row, consumed) = match scan_line(tail, size.w) {
            Ok(v) => v,
            Err(e) => {
                proof {
                    if y % 2 == 0 {
                        lemma_decompress_step(
                            data.spec_even(),
                            data.spec_odd(),
                            off_even as int,
                            off_odd as int,
                            size.w as nat,
                            (size.h - y) as nat,
                        );
                    } else {
                        lemma_decompress_step(
                            data.spec_odd(),
                            data.spec_even(),
                            off_odd as int,
                            off_even as int,
                            size.w as nat,
                            (size.h - y) as nat,
                        );
                    }
                }
                return Err(e);
            },
        };
        let mut row_mut = row;
        let ghost rowseq = row_mut@;
        img.append(&mut row_mut);
        proof {
            assert((y + 1) * size.w == y * size.w + size.w) by (nonlinear_arith);
            if y % 2 == 0 {
                lemma_decompress_step(
                    data.spec_even(),
                    data.spec_odd(),
                    off_even as int,
                    off_odd as int,
                    size.w as nat,
                    (size.h - y) as nat,
                );
            } else {
                lemma_decompress_step(
                    data.spec_odd(),
                    data.spec_even(),
                    off_odd as int,
                    off_even as int,
                    size.w as nat,
                    (size.h - y) as nat,
                );
            }
        }
        if y % 2 == 0 {
            off_even = off + consumed;
        } else {
            off_odd = off + consumed;
        }
        y = y + 1;
        proof {
            let inner = if (y - 1) % 2 == 0 {
                spec_decompress(
                    data.spec_odd(),
                    data.spec_even(),
                    off_odd as int,
                    off_even as int,
                    size.w as nat,
                    (size.h - y) as nat,
                )
            } else {
                spec_decompress(
                    data.spec_even(),
                    data.spec_odd(),
                    off_even as int,
                    off_odd as int,
                    size.w as nat,
                    (size.h - y) as nat,
                )
            };
            match inner {
                Option::Some(rest) => {
                    assert(img0 + (rowseq + rest) =~= img@ + rest);
                },
                Option::None => {},
            }
        }
    }
    proof {
        assert(img@ + Seq::<u8>::empty() =~= img@);
        assert(size.h * size.w == size.w * size.h) by (nonlinear_arith);
    }
    Ok(img)
}

/// A run-length encoded subtitle image: the display area, the palette and
/// alpha quads, and the two scan-line streams.
#[derive(Debug)]
pub struct VobSubRleImage<'a> {
    area: Area,
    palette: [u8; 4],
    alpha: [u8; 4],
    image_data: VobSubRleImageData<'a>,
}

impl<'a> VobSubRleImage<'a> {
    /// The display area of the image.
    pub closed spec fn spec_area(self) -> Area {
        self.area
    }

    /// The palette quad of the image.
    pub closed spec fn spec_palette(self) -> [u8; 4] {
        self.palette
    }

    /// The alpha quad of the image.
    pub closed spec fn spec_alpha(self) -> [u8; 4] {
        self.alpha
    }

    /// The scan-line streams of the image.
    pub closed spec fn spec_image_data(self) -> VobSubRleImageData<'a> {
        self.image_data
    }

    /// Bundle a display area, palette and alpha quads, and scan-line
    /// streams into one image value.
    pub fn new(
        area: Area,
        palette: [u8; 4],
        alpha: [u8; 4],
        image_data: VobSubRleImageData<'a>,
    ) -> (r: Self)
        ensures
            r.spec_area() == area,
            r.spec_palette() == palette,
            r.spec_alpha() == alpha,
            r.spec_image_data() == image_data,
    {
        VobSubRleImage { area, palette, alpha, image_data }
    }

    /// The display area of the image.
    pub fn area(&self) -> (r: Area)
        ensures
            r == self.spec_area(),
    {
        self.area
    }

    /// The size of the image.
    pub fn size(&self) -> (r: Size)
        requires
            self.spec_area().wf(),
            self.spec_area().spec_width() <= u16::MAX as int,
            self.spec_area().spec_height() <= u16::MAX as int,
        ensures
            r.w as int == self.spec_area().spec_width(),
            r.h as int == self.spec_area().spec_height(),
    {
        self.area.size()
    }

    /// Access to the palette quad.
    pub fn palette(&self) -> (r: &[u8; 4])
        ensures
            r == self.spec_palette(),
    {
        &self.palette
    }

    /// Access to the alpha quad.
    pub fn alpha(&self) -> (r: &[u8; 4])
        ensures
            r == self.spec_alpha(),
    {
        &self.alpha
    }

    /// Access to the scan-line streams.
    pub fn raw_data(&self) -> (r: &VobSubRleImageData<'a>)
        ensures
            r == self.spec_image_data(),
    {
        &self.image_data
    }
}

/// A decompressed subtitle image: the display area, the palette and alpha
/// quads, and one byte per 2-bit pixel in row-major order.
#[derive(Debug, Clone, PartialEq, Eq)]
pub struct VobSubIndexedImage {
    area: Area,
    palette: [u8; 4],
    alpha: [u8; 4],
    raw_image: Vec<u8>,
}

impl VobSubIndexedImage {
    /// The display area of the image.
    pub closed spec fn spec_area(self) -> Area {
        self.area
    }

    /// The palette quad of the image.
    pub closed spec fn spec_palette(self) -> [u8; 4] {
        self.palette
    }

    /// The alpha quad of the image.
    pub closed spec fn spec_alpha(self) -> [u8; 4] {
        self.alpha
    }

    /// The pixel bytes of the image.
    pub closed spec fn spec_raw_image(self) -> Seq<u8> {
        self.raw_image@
    }

    /// A well-formed decompressed image: the pixel buffer covers the area
    /// exactly, one byte per pixel, and every pixel is a 2-bit value.
    pub open spec fn wf(self) -> bool {
        &&& self.spec_area().wf()
        &&& self.spec_raw_image().len() == self.spec_area().spec_width()
            * self.spec_area().spec_height()
        &&& forall|i: int| 0 <= i < self.spec_raw_image().len() ==> self.spec_raw_image()[i] < 4
    }

    /// Create a new image value from its parts.
    pub fn new(area: Area, palette: [u8; 4], alpha: [u8; 4], raw_image: Vec<u8>) -> (r: Self)
        ensures
            r.spec_area() == area,
            r.spec_palette() == palette,
            r.spec_alpha() == alpha,
            r.spec_raw_image() == raw_image@,
    {
        VobSubIndexedImage { area, palette, alpha, raw_image }
    }

    /// The display area of the image.
    pub fn area(&self) -> (r: Area)
        ensures
            r == self.spec_area(),
    {
        self.area
    }

    /// Access to the palette quad.
    pub fn palette(&self) -> (r: &[u8; 4])
        ensures
            r == self.spec_palette(),
    {
        &self.palette
    }

    /// Access to the alpha quad.
    pub fn alpha(&self) -> (r: &[u8; 4])
        ensures
            r == self.spec_alpha(),
    {
        &self.alpha
    }

    /// Access to the pixel bytes of the image.
    pub fn raw_image(&self) -> (r: &[u8])
        ensures
            r@ == self.spec_raw_image(),
    {
        self.raw_image.as_slice()
    }
}

} // verus!
