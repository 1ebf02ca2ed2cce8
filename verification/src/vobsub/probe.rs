//! Guessing the kind of a subtitle file from its first bytes.

use vstd::prelude::*;

verus! {

/// The magic text at the start of a `VobSub` index (`.idx`) file.
pub open spec fn spec_idx_magic() -> Seq<u8> {
    seq![
        0x23u8, 0x20u8, 0x56u8, 0x6fu8, 0x62u8, 0x53u8, 0x75u8, 0x62u8, 0x20u8, 0x69u8, 0x6eu8,
        0x64u8, 0x65u8, 0x78u8, 0x20u8, 0x66u8, 0x69u8, 0x6cu8, 0x65u8,
    ]
}

/// Whether `data` begins with the bytes of `magic`.
pub open spec fn spec_has_magic(data: Seq<u8>, magic: Seq<u8>) -> bool {
    data.len() >= magic.len() && data.subrange(0, magic.len() as int) == magic
}

/// Look for magic bytes at the start of a buffer.
fn has_magic(data: &[u8], magic: &[u8]) -> (r: bool)
    ensures
        r == spec_has_magic(data@, magic@),
{
    if data.len() < magic.len() {
        proof {
            assert(!spec_has_magic(data@, magic@));
        }
        return false;
    }
    let mut i: usize = 0;
    while i < magic.len()
        invariant
            i <= magic@.len() <= data@.len(),
            forall|j: int| 0 <= j < i ==> data@[j] == magic@[j],
        decreases magic@.len() - i,
    {
        if data[i] != magic[i] {
            proof {
                assert(data@.subrange(0, magic@.len() as int)[i as int] != magic@[i as int]);
            }
            return false;
        }
        i = i + 1;
    }
    proof {
        assert(data@.subrange(0, magic@.len() as int) =~= magic@);
    }
    true
}

/// Do these first bytes of a file mark it as a `VobSub` index (`.idx`)
/// file?  The marker is the text `# VobSub index file`.
pub fn is_idx_file(header: &[u8]) -> (r: bool)
    ensures
        r == spec_has_magic(header@, spec_idx_magic()),
{
    let magic: [u8; 19] = [
        0x23, 0x20, 0x56, 0x6f, 0x62, 0x53, 0x75, 0x62, 0x20, 0x69, 0x6e, 0x64, 0x65, 0x78, 0x20,
        0x66, 0x69, 0x6c, 0x65,
    ];
    proof {
        assert(magic@ =~= spec_idx_magic());
    }
    has_magic(header, magic.as_slice())
}

/// Do these first bytes of a file mark it as a `VobSub` (`.sub`) file?
/// The marker is an MPEG-2 Program Stream pack header start code.  Note
/// that this may return false positives for other MPEG-2 formats.
pub fn is_sub_file(header: &[u8]) -> (r: bool)
    ensures
        r == spec_has_magic(header@, seq![0x00u8, 0x00u8, 0x01u8, 0xbau8]),
{
    let magic: [u8; 4] = [0x00, 0x00, 0x01, 0xba];
    proof {
        assert(magic@ =~= seq![0x00u8, 0x00u8, 0x01u8, 0xbau8]);
    }
    has_magic(header, magic.as_slice())
}

} // verus!
