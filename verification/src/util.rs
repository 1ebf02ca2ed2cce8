//! Miscellaneous utilities.

use crate::time::spec_decimal;
use crate::vobsub::palette::spec_hex_char;
use vstd::prelude::*;

verus! {

/// Wrapper around a byte slice for rendering as hexadecimal: at most the
/// first sixteen bytes are shown, followed by the total count.
pub struct BytesFormatter<'a>(pub &'a [u8]);

/// The hexadecimal rendering of the bytes at `i` and after, each as two
/// lowercase digits and a space, stopping after the sixteenth byte.
pub open spec fn spec_hex_bytes(data: Seq<u8>, i: int) -> Seq<char>
    decreases 16 - i,
{
    if i < 0 || i >= data.len() || i >= 16 {
        Seq::empty()
    } else {
        seq![
            spec_hex_char(data[i] / 16) as char,
            spec_hex_char(data[i] % 16) as char,
            ' ',
        ] + spec_hex_bytes(data, i + 1)
    }
}

/// The whole rendering: the leading bytes in hexadecimal, then the total
/// count in parentheses.
pub open spec fn spec_bytes_text(data: Seq<u8>) -> Seq<char> {
    spec_hex_bytes(data, 0) + seq!['('] + spec_decimal(data.len() as int) + seq![
        ' ',
        'b',
        'y',
        't',
        'e',
        's',
        ')',
    ]
}

impl<'a> BytesFormatter<'a> {
    /// Render the bytes: up to sixteen in hexadecimal, then the count.
    pub fn render(&self) -> (r: String)
        ensures
            r@ == spec_bytes_text(self.0@),
    {
        let data = self.0;
        let mut out = String::new();
        let limit: usize = if data.len() < 16 {
            data.len()
        } else {
            16
        };
        let mut i: usize = 0;
        while i < limit
            invariant
                i <= limit,
                limit == if data@.len() < 16 {
                    data@.len()
                } else {
                    16
                },
                spec_hex_bytes(data@, 0) == out@ + spec_hex_bytes(data@, i as int),
            decreases limit - i,
        {
            let b = data[i];
            let hi = b / 16;
            let lo = b % 16;
            let c1: u8 = if hi < 10 {
                0x30 + hi
            } else {
                0x57 + hi
            };
            let c2: u8 = if lo < 10 {
                0x30 + lo
            } else {
                0x57 + lo
            };
            let ghost before = out@;
            crate::time::push_char(&mut out, c1 as char);
            crate::time::push_char(&mut out, c2 as char);
            crate::time::push_char(&mut out, ' ');
            proof {
                assert(before + (seq![
                    spec_hex_char(data@[i as int] / 16) as char,
                    spec_hex_char(data@[i as int] % 16) as char,
                    ' ',
                ] + spec_hex_bytes(data@, i as int + 1)) =~= out@ + spec_hex_bytes(
                    data@,
                    i as int + 1,
                ));
            }
            i = i + 1;
        }
        proof {
            assert(out@ + Seq::<char>::empty() =~= out@);
        }
        crate::time::push_char(&mut out, '(');
        let n = data.len() as u64;
        crate::time::push_decimal(&mut out, n);
        crate::time::push_char(&mut out, ' ');
        crate::time::push_char(&mut out, 'b');
        crate::time::push_char(&mut out, 'y');
        crate::time::push_char(&mut out, 't');
        crate::time::push_char(&mut out, 'e');
        crate::time::push_char(&mut out, 's');
        crate::time::push_char(&mut out, ')');
        proof {
            assert(out@ =~= spec_bytes_text(data@));
        }
        out
    }
}

} // verus!
