//! The 16-color RGB palette of a `VobSub` subtitle stream, and the
//! textual palette line it is read from: sixteen 6-hex-digit triples
//! separated by comma and space.

use crate::vobsub::VobSubError;
use vstd::prelude::*;

verus! {

/// One RGB color of the palette.
#[derive(Debug, Clone, Copy, PartialEq, Eq)]
pub struct Rgb(pub [u8; 3]);

/// The hard-coded palette used when the index file carries none: black,
/// off-white, three greys, six saturated primaries and secondaries, and
/// dim variants.
pub open spec fn spec_default_palette() -> Seq<Rgb> {
    seq![
        Rgb([0x00, 0x00, 0x00]),
        Rgb([0xf0, 0xf0, 0xf0]),
        Rgb([0xcc, 0xcc, 0xcc]),
        Rgb([0x99, 0x99, 0x99]),
        Rgb([0x33, 0x33, 0xfa]),
        Rgb([0x11, 0x11, 0xbb]),
        Rgb([0xfa, 0x33, 0x33]),
        Rgb([0xbb, 0x11, 0x11]),
        Rgb([0x33, 0xfa, 0x33]),
        Rgb([0x11, 0xbb, 0x11]),
        Rgb([0xfa, 0xfa, 0x33]),
        Rgb([0xbb, 0xbb, 0x11]),
        Rgb([0xfa, 0x33, 0xfa]),
        Rgb([0xbb, 0x11, 0xbb]),
        Rgb([0x33, 0xfa, 0xfa]),
        Rgb([0x11, 0xbb, 0xbb]),
    ]
}

/// The default palette as a vector.
pub fn default_palette() -> (r: Vec<Rgb>)
    ensures
        r@ == spec_default_palette(),
{
    let mut v: Vec<Rgb> = Vec::new();
    v.push(Rgb([0x00, 0x00, 0x00]));
    v.push(Rgb([0xf0, 0xf0, 0xf0]));
    v.push(Rgb([0xcc, 0xcc, 0xcc]));
    v.push(Rgb([0x99, 0x99, 0x99]));
    v.push(Rgb([0x33, 0x33, 0xfa]));
    v.push(Rgb([0x11, 0x11, 0xbb]));
    v.push(Rgb([0xfa, 0x33, 0x33]));
    v.push(Rgb([0xbb, 0x11, 0x11]));
    v.push(Rgb([0x33, 0xfa, 0x33]));
    v.push(Rgb([0x11, 0xbb, 0x11]));
    v.push(Rgb([0xfa, 0xfa, 0x33]));
    v.push(Rgb([0xbb, 0xbb, 0x11]));
    v.push(Rgb([0xfa, 0x33, 0xfa]));
    v.push(Rgb([0xbb, 0x11, 0xbb]));
    v.push(Rgb([0x33, 0xfa, 0xfa]));
    v.push(Rgb([0x11, 0xbb, 0xbb]));
    proof {
        assert(v@ =~= spec_default_palette());
    }
    v
}

/// The value of an ASCII hexadecimal digit, upper or lower case.
pub open spec fn spec_hex_digit(c: u8) -> Option<u8> {
    if 0x30 <= c <= 0x39 {
        Some((c - 0x30) as u8)
    } else if 0x61 <= c <= 0x66 {
        Some((c - 0x57) as u8)
    } else if 0x41 <= c <= 0x46 {
        Some((c - 0x37) as u8)
    } else {
        None
    }
}

/// The lowercase ASCII digit of a 4-bit value.
pub open spec fn spec_hex_char(h: u8) -> u8
    recommends
        h < 16,
{
    if h < 10 {
        (0x30 + h) as u8
    } else {
        (0x57 + h) as u8
    }
}

/// Writing a 4-bit value as a digit and reading the digit back is the
/// identity.
pub proof fn lemma_hex_digit_round_trip(h: u8)
    requires
        h < 16,
    ensures
        spec_hex_digit(spec_hex_char(h)) == Some(h),
{
}

/// The byte encoded by the two hexadecimal digits at `i`.
pub open spec fn spec_hex_byte(data: Seq<u8>, i: int) -> Option<u8> {
    if 0 <= i && i + 2 <= data.len() {
        match (spec_hex_digit(data[i]), spec_hex_digit(data[i + 1])) {
            (Option::Some(hi), Option::Some(lo)) => Some((hi * 16 + lo) as u8),
            _ => None,
        }
    } else {
        None
    }
}

/// The color encoded by the six hexadecimal digits at `i`.
pub open spec fn spec_hex_rgb(data: Seq<u8>, i: int) -> Option<Rgb> {
    match (spec_hex_byte(data, i), spec_hex_byte(data, i + 2), spec_hex_byte(data, i + 4)) {
        (Option::Some(r), Option::Some(g), Option::Some(b)) => Some(Rgb([r, g, b])),
        _ => None,
    }
}

/// Parse a single byte from two hexadecimal digits.
pub fn from_hex(input: &[u8], i: usize) -> (res: Option<u8>)
    ensures
        res == spec_hex_byte(input@, i as int),
{
    if input.len() < i || input.len() - i < 2 {
        return None;
    }
    let hi = match hex_digit(input[i]) {
        Some(v) => v,
        None => {
            return None;
        },
    };
    let lo = match hex_digit(input[i + 1]) {
        Some(v) => v,
        None => {
            return None;
        },
    };
    Some(hi * 16 + lo)
}

/// The value of one hexadecimal digit byte.
fn hex_digit(c: u8) -> (res: Option<u8>)
    ensures
        res == spec_hex_digit(c),
{
    if 0x30 <= c && c <= 0x39 {
        Some(c - 0x30)
    } else if 0x61 <= c && c <= 0x66 {
        Some(c - 0x57)
    } else if 0x41 <= c && c <= 0x46 {
        Some(c - 0x37)
    } else {
        None
    }
}

/// Parse a 3-byte hexadecimal RGB color at byte `i`.
pub fn hex_rgb(input: &[u8], i: usize) -> (res: Option<Rgb>)
    ensures
        res == spec_hex_rgb(input@, i as int),
{
    let r = match from_hex(input, i) {
        Some(v) => v,
        None => {
            return None;
        },
    };
    if input.len() - i < 4 {
        return None;
    }
    let g = match from_hex(input, i + 2) {
        Some(v) => v,
        None => {
            return None;
        },
    };
    let b = match from_hex(input, i + 4) {
        Some(v) => v,
        None => {
            return None;
        },
    };
    Some(Rgb([r, g, b]))
}

/// The list of colors read from `pos`: entries of six hex digits,
/// separated by a comma and a space, as many as parse.  The result also
/// carries the position after the last entry.
pub open spec fn spec_palette_list(data: Seq<u8>, pos: int) -> (Seq<Rgb>, int)
    decreases data.len() - pos,
    when true
    via spec_palette_list_decreases
{
    match spec_hex_rgb(data, pos) {
        Option::None => (Seq::empty(), pos),
        Option::Some(c) => {
            let p2 = pos + 6;
            if p2 + 2 <= data.len() && data[p2] == 0x2c && data[p2 + 1] == 0x20 && spec_hex_rgb(
                data,
                p2 + 2,
            ) is Some {
                let (rest, e) = spec_palette_list(data, p2 + 2);
                (seq![c] + rest, e)
            } else {
                (seq![c], p2)
            }
        },
    }
}

#[via_fn]
proof fn spec_palette_list_decreases(data: Seq<u8>, pos: int) {
    if spec_hex_rgb(data, pos) is Some {
        assert(pos + 6 <= data.len());
    }
}

/// Parse a palette line: exactly sixteen comma-space-separated 6-digit
/// colors.  Returns the colors and the position after them; any number of
/// entries other than sixteen is refused with the count found.
pub fn palette(input: &[u8]) -> (res: Result<(Vec<Rgb>, usize), VobSubError>)
    ensures
        match res {
            Result::Ok((v, end)) => spec_palette_list(input@, 0) == (v@, end as int) && v@.len()
                == 16,
            Result::Err(e) => {
                &&& spec_palette_list(input@, 0).0.len() != 16
                &&& e == VobSubError::PaletteInvalidEntriesNumbers(
                    spec_palette_list(input@, 0).0.len() as usize,
                )
            },
        },
{
    let mut colors: Vec<Rgb> = Vec::new();
    let mut pos: usize = 0;
    let first = hex_rgb(input, 0);
    match first {
        None => {
            proof {
                assert(spec_palette_list(input@, 0) == (Seq::<Rgb>::empty(), 0int));
            }
            return Err(VobSubError::PaletteInvalidEntriesNumbers(0));
        },
        Some(c) => {
            colors.push(c);
            pos = 6;
        },
    }
    proof {
        assert(colors@ =~= seq![spec_hex_rgb(input@, 0)->0]);
    }
    loop
        invariant_except_break
            colors@.len() >= 1,
            pos <= input@.len() + 6,
            spec_palette_list(input@, 0) == {
                let (rest, e) = spec_palette_list_from(input@, pos as int, colors@);
                (rest, e)
            },
        ensures
            spec_palette_list(input@, 0) == (colors@, pos as int),
        decreases input@.len() + 6 - pos,
    {
        if input.len() < pos || input.len() - pos < 2 {
            break ;
        }
        if !(input[pos] == 0x2c && input[pos + 1] == 0x20) {
            break ;
        }
        match hex_rgb(input, pos + 2) {
            None => {
                break ;
            },
            Some(c) => {
                let ghost before = colors@;
                colors.push(c);
                proof {
                    assert(before + seq![c] =~= colors@);
                }
                pos = pos + 8;
            },
        }
    }
    if colors.len() != 16 {
        let n = colors.len();
        return Err(VobSubError::PaletteInvalidEntriesNumbers(n));
    }
    Ok((colors, pos))
}

/// The continuation of a palette parse: what the whole parse from the
/// start yields once `acc` entries have been read and the cursor stands
/// at `pos`, just after an entry.
pub open spec fn spec_palette_list_from(data: Seq<u8>, pos: int, acc: Seq<Rgb>) -> (Seq<Rgb>, int) {
    if pos + 2 <= data.len() && data[pos] == 0x2c && data[pos + 1] == 0x20 && spec_hex_rgb(
        data,
        pos + 2,
    ) is Some {
        let (rest, e) = spec_palette_list(data, pos + 2);
        (acc + rest, e)
    } else {
        (acc, pos)
    }
}

/// The six lowercase hexadecimal digits of one palette color.
pub open spec fn spec_format_entry(c: Rgb) -> Seq<u8> {
    seq![
        spec_hex_char(c.0[0] / 16),
        spec_hex_char(c.0[0] % 16),
        spec_hex_char(c.0[1] / 16),
        spec_hex_char(c.0[1] % 16),
        spec_hex_char(c.0[2] / 16),
        spec_hex_char(c.0[2] % 16),
    ]
}

/// The canonical text of a palette: the entries as 6-digit lowercase
/// hexadecimal triples, joined by a comma and a space.
pub open spec fn spec_format_palette(s: Seq<Rgb>) -> Seq<u8>
    decreases s.len(),
{
    if s.len() == 0 {
        Seq::empty()
    } else if s.len() == 1 {
        spec_format_entry(s[0])
    } else {
        spec_format_entry(s[0]) + seq![0x2cu8, 0x20u8] + spec_format_palette(
            s.subrange(1, s.len() as int),
        )
    }
}

/// Appending one color appends a separator and its six digits.
proof fn lemma_format_push(s: Seq<Rgb>, c: Rgb)
    requires
        s.len() >= 1,
    ensures
        spec_format_palette(s.push(c)) == spec_format_palette(s) + seq![0x2cu8, 0x20u8]
            + spec_format_entry(c),
    decreases s.len(),
{
    let sp = s.push(c);
    if s.len() == 1 {
        assert(sp.subrange(1, sp.len() as int) =~= seq![c]);
        assert(spec_format_palette(seq![c]) == spec_format_entry(c));
        assert(seq![c][0] == c);
    } else {
        lemma_format_push(s.subrange(1, s.len() as int), c);
        assert(sp.subrange(1, sp.len() as int) =~= s.subrange(1, s.len() as int).push(c));
        assert(spec_format_palette(s) + seq![0x2cu8, 0x20u8] + spec_format_entry(c)
            =~= spec_format_entry(s[0]) + seq![0x2cu8, 0x20u8] + (spec_format_palette(
            s.subrange(1, s.len() as int),
        ) + seq![0x2cu8, 0x20u8] + spec_format_entry(c)));
    }
}

/// Append the six digits of one color to a byte vector.
fn push_entry(out: &mut Vec<u8>, c: Rgb)
    ensures
        final(out)@ == old(out)@ + spec_format_entry(c),
{
    let ghost before = out@;
    out.push(hex_char(c.0[0] / 16));
    out.push(hex_char(c.0[0] % 16));
    out.push(hex_char(c.0[1] / 16));
    out.push(hex_char(c.0[1] % 16));
    out.push(hex_char(c.0[2] / 16));
    out.push(hex_char(c.0[2] % 16));
    proof {
        assert(out@ =~= before + spec_format_entry(c));
    }
}

/// The lowercase digit of a 4-bit value.
fn hex_char(h: u8) -> (r: u8)
    requires
        h < 16,
    ensures
        r == spec_hex_char(h),
{
    if h < 10 {
        0x30 + h
    } else {
        0x57 + h
    }
}

/// Render a palette as its canonical text: 6-digit lowercase triples
/// joined by a comma and a space.
pub fn format_palette(colors: &Vec<Rgb>) -> (out: Vec<u8>)
    ensures
        out@ == spec_format_palette(colors@),
{
    let mut out: Vec<u8> = Vec::new();
    if colors.len() == 0 {
        return out;
    }
    push_entry(&mut out, colors[0]);
    proof {
        assert(colors@.subrange(0, 1) =~= seq![colors@[0]]);
        assert(Seq::<u8>::empty() + spec_format_entry(colors@[0]) =~= spec_format_entry(
            colors@[0],
        ));
        assert(spec_format_palette(colors@.subrange(0, 1)) == spec_format_entry(colors@[0]));
    }
    let mut i: usize = 1;
    while i < colors.len()
        invariant
            1 <= i <= colors@.len(),
            out@ == spec_format_palette(colors@.subrange(0, i as int)),
        decreases colors@.len() - i,
    {
        let ghost pre = colors@.subrange(0, i as int);
        out.push(0x2c);
        out.push(0x20);
        push_entry(&mut out, colors[i]);
        proof {
            lemma_format_push(pre, colors@[i as int]);
            assert(colors@.subrange(0, i as int + 1) =~= pre.push(colors@[i as int]));
            assert(out@ =~= spec_format_palette(pre) + seq![0x2cu8, 0x20u8] + spec_format_entry(
                colors@[i as int],
            ));
        }
        i = i + 1;
    }
    proof {
        assert(colors@.subrange(0, colors@.len() as int) =~= colors@);
    }
    out
}

/// A hexadecimal byte read back from its own two digits is itself.
proof fn lemma_hex_byte_round_trip(data: Seq<u8>, i: int, v: u8)
    requires
        0 <= i,
        i + 2 <= data.len(),
        data[i] == spec_hex_char(v / 16),
        data[i + 1] == spec_hex_char(v % 16),
    ensures
        spec_hex_byte(data, i) == Some(v),
{
    lemma_hex_digit_round_trip(v / 16);
    lemma_hex_digit_round_trip(v % 16);
}

/// A color read back from its own six digits is itself.
proof fn lemma_hex_rgb_round_trip(data: Seq<u8>, i: int, c: Rgb)
    requires
        0 <= i,
        i + 6 <= data.len(),
        data.subrange(i, i + 6) == spec_format_entry(c),
    ensures
        spec_hex_rgb(data, i) == Some(c),
{
    assert(data[i] == spec_format_entry(c)[0]);
    assert(data[i + 1] == spec_format_entry(c)[1]);
    assert(data[i + 2] == spec_format_entry(c)[2]);
    assert(data[i + 3] == spec_format_entry(c)[3]);
    assert(data[i + 4] == spec_format_entry(c)[4]);
    assert(data[i + 5] == spec_format_entry(c)[5]);
    lemma_hex_byte_round_trip(data, i, c.0[0]);
    lemma_hex_byte_round_trip(data, i + 2, c.0[1]);
    lemma_hex_byte_round_trip(data, i + 4, c.0[2]);
    assert([c.0[0], c.0[1], c.0[2]] =~= c.0);
    assert(Rgb([c.0[0], c.0[1], c.0[2]]) == c);
}

/// A palette parse is unchanged by the bytes before it.
proof fn lemma_palette_list_shift(pre: Seq<u8>, rest: Seq<u8>, pos: int)
    requires
        0 <= pos,
    ensures
        spec_palette_list(pre + rest, pre.len() + pos) == (
            spec_palette_list(rest, pos).0,
            pre.len() + spec_palette_list(rest, pos).1,
        ),
    decreases rest.len() - pos,
{
    let all = pre + rest;
    let g = pre.len() as int;
    lemma_hex_rgb_shift(pre, rest, pos);
    match spec_hex_rgb(rest, pos) {
        Option::None => {},
        Option::Some(c) => {
            let p2 = pos + 6;
            lemma_hex_rgb_shift(pre, rest, p2 + 2);
            if p2 + 2 <= rest.len() && rest[p2] == 0x2c && rest[p2 + 1] == 0x20 && spec_hex_rgb(
                rest,
                p2 + 2,
            ) is Some {
                lemma_palette_list_shift(pre, rest, p2 + 2);
            }
        },
    }
}

/// A color parse is unchanged by the bytes before it.
proof fn lemma_hex_rgb_shift(pre: Seq<u8>, rest: Seq<u8>, pos: int)
    requires
        0 <= pos,
    ensures
        spec_hex_rgb(pre + rest, pre.len() + pos) == spec_hex_rgb(rest, pos),
{
    let all = pre + rest;
    let g = pre.len() as int;
    assert(spec_hex_byte(all, g + pos) == spec_hex_byte(rest, pos));
    assert(spec_hex_byte(all, g + pos + 2) == spec_hex_byte(rest, pos + 2));
    assert(spec_hex_byte(all, g + pos + 4) == spec_hex_byte(rest, pos + 4));
}

/// Round trip of the palette text: parsing the canonical text of any
/// palette yields exactly that palette and consumes the whole text.  In
/// particular, parsing a canonical sixteen-triple palette line and
/// formatting the result reproduces the line byte for byte.
pub proof fn lemma_palette_round_trip(s: Seq<Rgb>)
    ensures
        spec_palette_list(spec_format_palette(s), 0) == (
            s,
            spec_format_palette(s).len() as int,
        ),
    decreases s.len(),
{
    let data = spec_format_palette(s);
    if s.len() == 0 {
    } else if s.len() == 1 {
        assert(data.subrange(0, 6) =~= spec_format_entry(s[0]));
        lemma_hex_rgb_round_trip(data, 0, s[0]);
        assert(seq![s[0]] =~= s);
    } else {
        let tail = s.subrange(1, s.len() as int);
        lemma_palette_round_trip(tail);
        let pre = spec_format_entry(s[0]) + seq![0x2cu8, 0x20u8];
        assert(data =~= pre + spec_format_palette(tail));
        assert(data.subrange(0, 6) =~= spec_format_entry(s[0]));
        lemma_hex_rgb_round_trip(data, 0, s[0]);
        lemma_hex_rgb_shift(pre, spec_format_palette(tail), 0);
        lemma_palette_list_shift(pre, spec_format_palette(tail), 0);
        assert(data[6] == 0x2c && data[7] == 0x20);
        assert(spec_palette_list(data, 8) == (tail, 8 + spec_format_palette(tail).len() as int));
        assert(seq![s[0]] + tail =~= s);
    }
}

} // verus!
