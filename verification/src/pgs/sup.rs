//! The parser facade for Presentation Graphic Stream (`.sup`) content.

use crate::pgs::decoder::PgsDecoder;
use crate::pgs::PgsError;
use vstd::prelude::*;

verus! {

/// To parse Presentation Graphic Stream content, the Blu-ray subtitle
/// format of `.sup` files, over an in-memory buffer.  The decoder type
/// chooses what each display set yields.
pub struct SupParser<Decoder> {
    data: Vec<u8>,
    pos: usize,
    decoder: core::marker::PhantomData<Decoder>,
}

impl<Decoder: PgsDecoder> SupParser<Decoder> {
    /// The cursor never leaves the buffer.
    pub closed spec fn wf(self) -> bool {
        self.pos <= self.data@.len()
    }

    /// The bytes of the stream.
    pub closed spec fn spec_data(self) -> Seq<u8> {
        self.data@
    }

    /// The cursor into the stream.
    pub closed spec fn spec_pos(self) -> int {
        self.pos as int
    }

    /// Create a parser over the bytes of a `.sup` stream.
    pub fn new(data: Vec<u8>) -> (r: Self)
        ensures
            r.wf(),
            r.spec_data() == data@,
            r.spec_pos() == 0,
    {
        SupParser { data, pos: 0, decoder: core::marker::PhantomData }
    }

    /// Parse the next subtitle: the transposition of the decoder's scan
    /// at the current cursor.  An output comes with the decoder's
    /// guarantee for it, an error is the one the scan meets, and `None`
    /// is a clean end of the stream.
    pub fn next(&mut self) -> (r: Option<Result<Decoder::Output, PgsError>>)
        requires
            old(self).wf(),
        ensures
            final(self).wf(),
            final(self).spec_data() == old(self).spec_data(),
            match r {
                Option::Some(Result::Ok(out)) => Decoder::spec_parse(
                    old(self).spec_data(),
                    old(self).spec_pos(),
                ) == Ok::<Option<int>, PgsError>(Some(final(self).spec_pos()))
                    && Decoder::spec_output(old(self).spec_data(), old(self).spec_pos(), out),
                Option::Some(Result::Err(e)) => Decoder::spec_parse(
                    old(self).spec_data(),
                    old(self).spec_pos(),
                ) == Err::<Option<int>, PgsError>(e),
                Option::None => Decoder::spec_parse(old(self).spec_data(), old(self).spec_pos())
                    == Ok::<Option<int>, PgsError>(None),
            },
    {
        match Decoder::parse_next(self.data.as_slice(), &mut self.pos) {
            Ok(Some(v)) => Some(Ok(v)),
            Ok(None) => None,
            Err(e) => Some(Err(e)),
        }
    }
}

} // verus!
