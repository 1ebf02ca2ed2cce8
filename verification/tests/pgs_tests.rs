//! Tests of the Presentation Graphic Stream decoders, segment parsing,
//! palettes and the run-length pixel iterator.

use subtile::pgs::decoder::{DecodeTimeImage, DecodeTimeOnly};
use subtile::pgs::ods::{self, LastInSequenceFlag, ObjectDefinitionSegment, OdsError};
use subtile::pgs::pds::{self, Palette, PaletteEntry};
use subtile::pgs::pgs_image::RleEncodedImage;
use subtile::pgs::segment::{read_header, SegmentTypeCode};
use subtile::pgs::sup::SupParser;
use subtile::pgs::u24::u24;
use subtile::pgs::PgsError;
use subtile::time::{TimePoint, TimeSpan};

/// A segment header: the `PG` magic, a 90 kHz timestamp, a zero DTS, a
/// type byte and a body size.
fn segment(pts_90khz: u32, type_code: u8, body: &[u8]) -> Vec<u8> {
    let mut v = vec![0x50u8, 0x47];
    v.extend_from_slice(&pts_90khz.to_be_bytes());
    v.extend_from_slice(&[0, 0, 0, 0]);
    v.push(type_code);
    v.extend_from_slice(&(body.len() as u16).to_be_bytes());
    v.extend_from_slice(body);
    v
}

#[test]
fn parse_segment_header() {
    let bytes = segment(45000, 0x80, &[]);
    let (header, end) = read_header(&bytes, 0).unwrap().unwrap();
    assert_eq!(header.presentation_time(), 500);
    assert_eq!(header.type_code(), SegmentTypeCode::End);
    assert_eq!(header.size(), 0);
    assert_eq!(end, 13);
}

#[test]
fn segment_header_errors() {
    // Clean end of stream at the boundary.
    assert_eq!(read_header(&[], 0), Ok(None));
    // A cut-off header.
    assert_eq!(read_header(&[0x50u8, 0x47, 0x00], 0), Err(PgsError::SegmentFailReadHeader));
    // A missing magic.
    let mut bad = segment(0, 0x80, &[]);
    bad[0] = 0x51;
    assert_eq!(read_header(&bad, 0), Err(PgsError::SegmentPGMissing));
    // An unknown type code.
    let unknown = segment(0, 0x42, &[]);
    assert_eq!(
        read_header(&unknown, 0),
        Err(PgsError::SegmentInvalidTypeCode { value: 0x42 })
    );
}

#[test]
fn parse_only_one_sub() {
    // A stream with exactly one display set: one END records the start,
    // the next END closes the span.
    let mut stream = segment(500 * 90, 0x80, &[]);
    stream.extend_from_slice(&segment(1499 * 90, 0x80, &[]));
    let mut parser: SupParser<DecodeTimeOnly> = SupParser::new(stream);
    let controls = [TimeSpan::new(TimePoint::from_msecs(500), TimePoint::from_msecs(1499))];
    let first = parser.next().expect("one span").expect("parses");
    assert_eq!(first, controls[0]);
    assert!(parser.next().is_none());
}

#[test]
fn missing_image_display_set() {
    // A display set that closes without defining an object or a palette
    // fails with a missing image.
    let mut stream = segment(90_000, 0x80, &[]);
    stream.extend_from_slice(&segment(180_000, 0x80, &[]));
    let mut parser: SupParser<DecodeTimeImage> = SupParser::new(stream);
    let first = parser.next().expect("one result");
    assert!(matches!(first, Err(PgsError::MissingImage)));
}

#[test]
fn empty_image_display_set() {
    // A display set with a palette but no object keeps its timing with
    // an empty image.
    let pds_body = [0u8, 0, /* entry */ 0, 100, 0, 0, 200];
    let mut stream = segment(90_000, 0x80, &[]);
    stream.extend_from_slice(&segment(90_000, 0x14, &pds_body));
    stream.extend_from_slice(&segment(180_000, 0x80, &[]));
    let mut parser: SupParser<DecodeTimeImage> = SupParser::new(stream);
    let (span, img) = parser.next().expect("one result").expect("parses");
    assert_eq!(span, TimeSpan::new(TimePoint::from_msecs(1000), TimePoint::from_msecs(2000)));
    assert_eq!(img.width(), 0);
    assert_eq!(img.height(), 0);
}

#[test]
fn palette_lookup_with_offset() {
    // The lookup shifts incoming ids by the first entry's id.
    let entries = vec![
        PaletteEntry {
            palette_entry_id: 3,
            luminance: 10,
            color_difference_red: 0,
            color_difference_blue: 0,
            transparency: 200,
        },
        PaletteEntry {
            palette_entry_id: 4,
            luminance: 20,
            color_difference_red: 0,
            color_difference_blue: 0,
            transparency: 100,
        },
    ];
    let palette = Palette::new(entries);
    assert_eq!(palette.get(3).unwrap().luminance, 10);
    assert_eq!(palette.get(4).unwrap().luminance, 20);
    assert!(palette.get(2).is_none());
    assert!(palette.get(5).is_none());
}

#[test]
fn palette_parse_is_pure() {
    // Re-parsing the same palette bytes yields palettes that agree on
    // every id.
    let body = [7u8, 1, /* entries */ 0, 11, 1, 2, 33, 1, 22, 3, 4, 44];
    let (seg1, _) = pds::read(&body, 0, body.len()).unwrap();
    let (seg2, _) = pds::read(&body, 0, body.len()).unwrap();
    for id in 0u8..=255 {
        let a = seg1.palette.get(id).copied();
        let b = seg2.palette.get(id).copied();
        assert_eq!(a, b);
    }
    assert_eq!(seg1.palette.get(1).unwrap().luminance, 22);
}

#[test]
fn pds_size_must_fit_entries() {
    let body = [7u8, 1, 0, 11, 1];
    let err = pds::read(&body, 0, body.len()).unwrap_err();
    assert_eq!(err, pds::PdsError::InvalidEntriesSize { size: 5 });
}

#[test]
fn ods_first_and_last_size_must_match() {
    // A whole object in one fragment whose segment size disagrees with
    // the declared data length must fail.
    let mut body = vec![0u8, 1, 0, /* object id and version */ 0xC0];
    body.extend_from_slice(&[0, 0, 10]); // declared length: 6 data bytes + 4
    body.extend_from_slice(&[0, 2, 0, 3]); // width 2, height 3
    body.extend_from_slice(&[1, 2, 3]); // only 3 of the 6 declared bytes
    let segment_size = body.len(); // 14, but 11 + 6 = 17 was declared
    let err = ods::read(&body, 0, segment_size, None).unwrap_err();
    assert_eq!(err, OdsError::InvalidDataSize { segment_size: 14, data_length: 10 });
}

#[test]
fn ods_reassembles_fragments() {
    let mut first = vec![0u8, 1, 0, 0x80];
    first.extend_from_slice(&[0, 0, 8]); // length: 4 data bytes + 4
    first.extend_from_slice(&[0, 2, 0, 2]); // width 2, height 2
    first.extend_from_slice(&[0xaa, 0xbb]); // half the data
    let state = ods::read(&first, 0, first.len(), None).unwrap().0;
    match &state {
        ObjectDefinitionSegment::Partial { amount_of_data_read, .. } => {
            assert_eq!(*amount_of_data_read, 2);
        }
        _ => panic!("expected a partial object"),
    }
    let mut last = vec![0u8, 1, 0, 0x40];
    last.extend_from_slice(&[0xcc, 0xdd]); // the rest
    let done = ods::read(&last, 0, last.len(), Some(state)).unwrap().0;
    match done {
        ObjectDefinitionSegment::Complete(d) => {
            assert_eq!(d.width, 2);
            assert_eq!(d.height, 2);
            assert_eq!(d.object_data, vec![0xaa, 0xbb, 0xcc, 0xdd]);
        }
        _ => panic!("expected a complete object"),
    }
}

#[test]
fn ods_unexpected_continuation() {
    let mut last = vec![0u8, 1, 0, 0x40];
    last.extend_from_slice(&[0xcc, 0xdd]);
    let err = ods::read(&last, 0, last.len(), None).unwrap_err();
    assert_eq!(err, OdsError::LastInSequenceFlagNotManaged(LastInSequenceFlag::Last));
}

#[test]
fn rle_pixel_iterator_emits_declared_size() {
    let entries = vec![
        PaletteEntry {
            palette_entry_id: 0,
            luminance: 1,
            color_difference_red: 0,
            color_difference_blue: 0,
            transparency: 9,
        },
        PaletteEntry {
            palette_entry_id: 1,
            luminance: 2,
            color_difference_red: 0,
            color_difference_blue: 0,
            transparency: 8,
        },
    ];
    let palette = Palette::new(entries);
    // One single pixel of color 1, then a marker run of three pixels of
    // color 0, then an end-of-line marker.
    let raw = vec![0x01u8, 0x00, 0x03, 0x00, 0x00];
    let img = RleEncodedImage::new(4, 1, palette, raw);
    let mut iter = img.pixels();
    assert_eq!(iter.size_hint(), 4);
    let mut produced = Vec::new();
    while let Some(px) = iter.next() {
        produced.push(px);
    }
    // Color 1 maps to luminance 2; color 0 to luminance 1.
    assert_eq!(produced, vec![(2, 8), (1, 9), (1, 9), (1, 9)]);
    assert_eq!(produced.len(), iter.size_hint());
}

#[test]
fn u24_to_u32() {
    assert_eq!(u24::from_bytes([0x01, 0x02, 0x03]).to_u32(), 0x010203);
    assert_eq!(u24::from_bytes([0xff, 0xff, 0xff]).to_u32(), 0xffffff);
}

#[test]
fn decode_display_set_with_image() {
    // A whole display set: a palette, a one-fragment object, and the two
    // END segments that open and close the timing.
    let pds_body = [0u8, 0, /* entry */ 1, 40, 0, 0, 250];
    let mut ods_body = vec![0u8, 1, 0, 0xC0];
    ods_body.extend_from_slice(&[0, 0, 6]); // declared length: 2 data bytes + 4
    ods_body.extend_from_slice(&[0, 2, 0, 1]); // width 2, height 1
    ods_body.extend_from_slice(&[0x01, 0x01]); // two single pixels of color 1
    let mut stream = segment(90_000, 0x80, &[]);
    stream.extend_from_slice(&segment(90_000, 0x14, &pds_body));
    stream.extend_from_slice(&segment(90_000, 0x15, &ods_body));
    stream.extend_from_slice(&segment(180_000, 0x80, &[]));
    let mut parser: SupParser<DecodeTimeImage> = SupParser::new(stream);
    let (span, img) = parser.next().expect("one subtitle").expect("parses");
    assert_eq!(span, TimeSpan::new(TimePoint::from_msecs(1000), TimePoint::from_msecs(2000)));
    assert_eq!(img.width(), 2);
    assert_eq!(img.height(), 1);
    let mut iter = img.pixels();
    assert_eq!(iter.size_hint(), 2);
    let mut produced = Vec::new();
    while let Some(px) = iter.next() {
        produced.push(px);
    }
    assert_eq!(produced, vec![(40, 250), (40, 250)]);
    assert!(parser.next().is_none());
}
