//! Palette Definition Segments: the palette entries of a display set and
//! the id-shifted lookup over them.

use vstd::prelude::*;

verus! {

/// Error of Palette Definition Segment handling.
#[derive(Debug, Clone, Copy, PartialEq, Eq, Structural)]
pub enum PdsError {
    /// The segment body was cut off by the end of the stream.
    BufferParse,
    /// The body size does not leave a whole number of 5-byte entries
    /// after the two id and version bytes.
    InvalidEntriesSize {
        /// The offending body size.
        size: usize,
    },
}

/// One palette entry: an id and a YCrCb color with transparency.
#[derive(Debug, Clone, Copy, PartialEq, Eq, Structural)]
pub struct PaletteEntry {
    /// Entry number of the palette.
    pub palette_entry_id: u8,
    /// Luminance (Y value).
    pub luminance: u8,
    /// Color difference red (Cr value).
    pub color_difference_red: u8,
    /// Color difference blue (Cb value).
    pub color_difference_blue: u8,
    /// Transparency (alpha value).
    pub transparency: u8,
}

/// The palette of a display set: its entries, and the lookup offset
/// computed once from the first entry's id.
#[derive(Debug, Clone)]
pub struct Palette {
    entries: Vec<PaletteEntry>,
    offset: i16,
}

/// The lookup offset a list of entries determines: the negated id of the
/// first entry, or zero for an empty palette.
pub open spec fn spec_offset(entries: Seq<PaletteEntry>) -> int {
    if entries.len() == 0 {
        0
    } else {
        -(entries[0].palette_entry_id as int)
    }
}

/// What a palette lookup of color id `id` yields over a list of entries:
/// the entry at the id shifted by the offset, if it lies in the list.
pub open spec fn spec_lookup(entries: Seq<PaletteEntry>, id: u8) -> Option<PaletteEntry> {
    let idx = id as int + spec_offset(entries);
    if 0 <= idx < entries.len() {
        Some(entries[idx])
    } else {
        None
    }
}

impl Palette {
    /// The entries of the palette.
    pub closed spec fn spec_entries(self) -> Seq<PaletteEntry> {
        self.entries@
    }

    /// The palette's offset equals the one its entries determine.
    pub closed spec fn wf(self) -> bool {
        self.offset as int == spec_offset(self.entries@)
    }

    /// Build a palette from its entries, computing the lookup offset.
    pub fn new(entries: Vec<PaletteEntry>) -> (r: Self)
        ensures
            r.spec_entries() == entries@,
            r.wf(),
    {
        let offset = compute_offset(&entries);
        Palette { entries, offset }
    }

    /// Look a color id up: the entry at the id shifted by the palette's
    /// offset, or nothing when the shifted id falls outside the entries.
    pub fn get(&self, id: u8) -> (r: Option<&PaletteEntry>)
        requires
            self.wf(),
        ensures
            match r {
                Option::Some(e) => spec_lookup(self.spec_entries(), id) == Some(*e),
                Option::None => spec_lookup(self.spec_entries(), id) is None,
            },
    {
        let idx = id as i16 + self.offset;
        if idx < 0 {
            return None;
        }
        let idx = idx as usize;
        if idx < self.entries.len() {
            Some(&self.entries[idx])
        } else {
            None
        }
    }
}

/// The lookup offset of a list of entries.
pub fn compute_offset(palette: &Vec<PaletteEntry>) -> (r: i16)
    ensures
        r as int == spec_offset(palette@),
{
    if palette.len() == 0 {
        0
    } else {
        0 - (palette[0].palette_entry_id as i16)
    }
}

/// The palette entries packed into the `n` 5-byte groups at byte `pos`.
pub open spec fn spec_pds_entries(data: Seq<u8>, pos: int, n: nat) -> Seq<PaletteEntry> {
    Seq::new(
        n,
        |k: int|
            PaletteEntry {
                palette_entry_id: data[pos + 5 * k],
                luminance: data[pos + 5 * k + 1],
                color_difference_red: data[pos + 5 * k + 2],
                color_difference_blue: data[pos + 5 * k + 3],
                transparency: data[pos + 5 * k + 4],
            },
    )
}

/// A parsed Palette Definition Segment: the palette id and version are
/// retained for inspection only.
#[derive(Debug, Clone)]
pub struct PaletteDefinitionSegment {
    /// The id of the palette.
    pub palette_id: u8,
    /// The version of this palette within its epoch.
    pub palette_version_number: u8,
    /// The palette itself.
    pub palette: Palette,
}

/// Parse the Palette Definition Segment body of `segments_size` bytes at
/// byte `pos`: two id and version bytes, then 5-byte entries filling the
/// rest of the body exactly.
pub fn read(data: &[u8], pos: usize, segments_size: usize) -> (res: Result<
    (PaletteDefinitionSegment, usize),
    PdsError,
>)
    requires
        pos <= data@.len(),
    ensures
        res is Ok <==> pos + segments_size <= data@.len() && segments_size >= 2 && (segments_size
            - 2) % 5 == 0,
        res is Ok ==> {
            let n = ((segments_size - 2) / 5) as nat;
            &&& res->Ok_0.1 == pos + segments_size
            &&& res->Ok_0.0.palette_id == data@[pos as int]
            &&& res->Ok_0.0.palette_version_number == data@[pos as int + 1]
            &&& res->Ok_0.0.palette.spec_entries() == spec_pds_entries(data@, pos as int + 2, n)
            &&& res->Ok_0.0.palette.wf()
        },
        res is Err ==> (res->Err_0 == PdsError::BufferParse && data@.len() < pos + segments_size)
            || (res->Err_0 == (PdsError::InvalidEntriesSize { size: segments_size }) && pos
            + segments_size <= data@.len() && !(segments_size >= 2 && (segments_size - 2) % 5
            == 0)),
{
    if data.len() - pos < segments_size {
        return Err(PdsError::BufferParse);
    }
    if segments_size < 2 || (segments_size - 2) % 5 != 0 {
        return Err(PdsError::InvalidEntriesSize { size: segments_size });
    }
    let palette_id = data[pos];
    let palette_version_number = data[pos + 1];
    let n = (segments_size - 2) / 5;
    let base = pos + 2;
    let total = data.len();
    let mut entries: Vec<PaletteEntry> = Vec::new();
    let mut k: usize = 0;
    proof {
        assert(5 * (n as int) <= segments_size - 2) by (nonlinear_arith)
            requires
                n as int == (segments_size as int - 2) / 5 && (segments_size as int - 2) % 5 == 0
                    && segments_size >= 2,
        ;
    }
    while k < n
        invariant
            k <= n,
            total == data@.len(),
            base + 5 * n <= total,
            entries@ == spec_pds_entries(data@, base as int, k as nat),
        decreases n - k,
    {
        proof {
            assert(5 * (k as int) + 5 <= 5 * (n as int)) by (nonlinear_arith)
                requires
                    k < n,
            ;
        }
        let off = base + 5 * k;
        let e = PaletteEntry {
            palette_entry_id: data[off],
            luminance: data[off + 1],
            color_difference_red: data[off + 2],
            color_difference_blue: data[off + 3],
            transparency: data[off + 4],
        };
        entries.push(e);
        proof {
            assert(entries@ =~= spec_pds_entries(data@, base as int, (k + 1) as nat));
        }
        k = k + 1;
    }
    Ok((PaletteDefinitionSegment { palette_id, palette_version_number, palette: Palette::new(entries) }, pos
        + segments_size))
}

/// Palette lookup is a pure function of the palette bytes: two segments
/// carrying the same bytes parse to palettes that agree on every color
/// id.
pub proof fn lemma_palette_lookup_pure(
    d1: Seq<u8>,
    p1: int,
    d2: Seq<u8>,
    p2: int,
    n: nat,
)
    requires
        forall|k: int| 0 <= k < 5 * n ==> #[trigger] d1[p1 + k] == d2[p2 + k],
    ensures
        forall|id: u8|
            #[trigger] spec_lookup(spec_pds_entries(d1, p1, n), id) == spec_lookup(
                spec_pds_entries(d2, p2, n),
                id,
            ),
{
    assert(spec_pds_entries(d1, p1, n) =~= spec_pds_entries(d2, p2, n)) by {
        assert forall|k: int| 0 <= k < n implies spec_pds_entries(d1, p1, n)[k]
            == spec_pds_entries(d2, p2, n)[k] by {
            assert(0 <= 5 * k && 5 * k + 4 < 5 * n) by (nonlinear_arith)
                requires
                    0 <= k < n,
            ;
            assert(d1[p1 + (5 * k)] == d2[p2 + (5 * k)]);
            assert(d1[p1 + (5 * k + 1)] == d2[p2 + (5 * k + 1)]);
            assert(d1[p1 + (5 * k + 2)] == d2[p2 + (5 * k + 2)]);
            assert(d1[p1 + (5 * k + 3)] == d2[p2 + (5 * k + 3)]);
            assert(d1[p1 + (5 * k + 4)] == d2[p2 + (5 * k + 4)]);
        }
    }
}

} // verus!
