//! Tests of the VobSub control interpreter, image decoder, palette text
//! and file probing.

use subtile::content::{Area, AreaValues};
use subtile::vobsub::img::{decompress, scan_line, ImgError, VobSubRleImageData};
use subtile::vobsub::palette::{default_palette, format_palette, hex_rgb, palette, Rgb};
use subtile::vobsub::probe::{is_idx_file, is_sub_file};
use subtile::vobsub::sub::{
    backfill_end, control_sequence, palette_entries, parse_be_u16_as_usize, subtitle,
    ControlCommand,
};
use subtile::vobsub::{ErrorMissing, VobSubError};
use subtile::content::Size;
use subtile::time::TimePoint;

#[test]
fn parse_palette_entries() {
    assert_eq!(palette_entries(&[0x03, 0x10], 0), Ok([0x00, 0x03, 0x01, 0x00]));
}

#[test]
fn parse_be_u16() {
    let buff = [0x12u8, 0x34, 0x56];
    let (rest, v) = parse_be_u16_as_usize(&buff).unwrap();
    assert_eq!(v, 0x1234);
    assert_eq!(rest, &[0x56u8][..]);
    assert_eq!(
        parse_be_u16_as_usize(&[0x12]).unwrap_err(),
        VobSubError::BufferTooSmallForU16
    );
}

#[test]
fn parse_control_sequence() {
    let input_1 = [
        0x00u8, 0x00, 0x0f, 0x41, 0x01, 0x03, 0x03, 0x10, 0x04, 0xff, 0xf0, 0x05, 0x29, 0xb4,
        0xe6, 0x3c, 0x54, 0x00, 0x06, 0x00, 0x04, 0x07, 0x7b, 0xff,
    ];
    let (cs, end) = control_sequence(&input_1, 0).unwrap();
    assert_eq!(cs.date, 0x0000);
    assert_eq!(cs.next, 0x0f41);
    assert_eq!(
        cs.commands,
        vec![
            ControlCommand::StartDate,
            ControlCommand::Palette([0x0, 0x3, 0x1, 0x0]),
            ControlCommand::Alpha([0xf, 0xf, 0xf, 0x0]),
            ControlCommand::Coordinates(AreaValues {
                x1: 0x29b,
                x2: 0x4e6,
                y1: 0x3c5,
                y2: 0x400,
            }),
            ControlCommand::RleOffsets([0x0004, 0x077b]),
        ]
    );
    assert_eq!(end, input_1.len());

    let input_2 = [0x00u8, 0x77, 0x0f, 0x41, 0x02, 0xff];
    let (cs2, _) = control_sequence(&input_2, 0).unwrap();
    assert_eq!(cs2.date, 0x0077);
    assert_eq!(cs2.next, 0x0f41);
    assert_eq!(cs2.commands, vec![ControlCommand::StopDate]);

    // An out of order example.
    let input_3 = [0x00u8, 0x00, 0x0b, 0x30, 0x01, 0x00, 0xff];
    let (cs3, _) = control_sequence(&input_3, 0).unwrap();
    assert_eq!(cs3.date, 0x0000);
    assert_eq!(cs3.next, 0x0b30);
    assert_eq!(cs3.commands, vec![ControlCommand::StartDate, ControlCommand::Force]);
}

#[test]
fn empty_control_sequence_fails_cleanly() {
    // A subpicture whose initial control offset points back into the
    // offset bytes themselves: a single terminal sequence whose commands
    // declare a start date and nothing else must fail with a missing
    // area, not panic.
    let raw = [0x00u8, 0x08, 0x00, 0x02, 0x00, 0x02, 0x01, 0xff];
    let err = subtitle(&raw, 0).unwrap_err();
    assert_eq!(err, VobSubError::MissingSubtitleParsing(ErrorMissing::Area));
}

#[test]
fn control_offset_past_packet_fails() {
    let raw = [0x00u8, 0x08, 0x00, 0x20, 0x00, 0x00, 0x01, 0xff];
    let err = subtitle(&raw, 0).unwrap_err();
    assert_eq!(err, VobSubError::ControlOffsetBiggerThanPacket { offset: 0x20, packet: 8 });
}

#[test]
fn scan_line_exact_width_consumes_all_bits() {
    // One run of three pixels of value 2, no end-of-line code: four bits
    // `11 10`, and the cursor rounds up to the single byte.
    let data = [0b1110_0000u8];
    let (row, consumed) = scan_line(&data, 3).unwrap();
    assert_eq!(row, vec![2u8, 2, 2]);
    assert_eq!(consumed, 1);
}

#[test]
fn scan_line_overlong_run_fails() {
    // A run of three pixels into a line of width two.
    let data = [0b1110_0000u8];
    assert_eq!(
        scan_line(&data, 2),
        Err(ImgError::ScanLineLongerThanWidth { x: 3, width: 2 })
    );
}

#[test]
fn scan_line_fill_to_end_of_line() {
    // Fourteen zero bits mean fill to the end of the line.
    let data = [0x00u8, 0b0000_0001];
    let (row, consumed) = scan_line(&data, 7).unwrap();
    assert_eq!(row, vec![1u8; 7]);
    assert_eq!(consumed, 2);
}

#[test]
fn decompress_interlaced_streams() {
    let raw = [0xb0u8, 0xb0];
    let data = VobSubRleImageData::new(&raw, [0, 1], 2).unwrap();
    let img = decompress(Size { w: 2, h: 2 }, &data).unwrap();
    assert_eq!(img, vec![3u8, 3, 3, 3]);
}

#[test]
fn invalid_scan_line_offsets() {
    let raw = [0u8; 4];
    let err = VobSubRleImageData::new(&raw, [3, 1], 4).unwrap_err();
    assert_eq!(err, VobSubError::InvalidScanLineOffsets { start_0: 3, start_1: 1, end: 4 });
}

#[test]
fn parse_rgb() {
    assert_eq!(hex_rgb(b"1234ab", 0), Some(Rgb([0x12, 0x34, 0xab])));
}

#[test]
fn parse_palette() {
    let input: &[u8] = b"000000, f0f0f0, cccccc, 999999, 3333fa, 1111bb, fa3333, bb1111, \
33fa33, 11bb11, fafa33, bbbb11, fa33fa, bb11bb, 33fafa, 11bbbb";
    let (colors, end) = palette(input).unwrap();
    assert_eq!(colors, default_palette());
    assert_eq!(colors[0], Rgb([0x00, 0x00, 0x00]));
    assert_eq!(colors[15], Rgb([0x11, 0xbb, 0xbb]));
    assert_eq!(end, input.len());
}

#[test]
fn palette_format_round_trip() {
    let input: &[u8] = b"000000, f0f0f0, cccccc, 999999, 3333fa, 1111bb, fa3333, bb1111, \
33fa33, 11bb11, fafa33, bbbb11, fa33fa, bb11bb, 33fafa, 11bbbb";
    let (colors, _) = palette(input).unwrap();
    assert_eq!(format_palette(&colors), input.to_vec());
}

#[test]
fn palette_wrong_entry_count() {
    let input: &[u8] = b"000000, f0f0f0";
    assert_eq!(palette(input).unwrap_err(), VobSubError::PaletteInvalidEntriesNumbers(2));
}

#[test]
fn probe_idx_files() {
    let idx_header = b"# VobSub index file, v7 ...";
    let sub_header = [0x00u8, 0x00, 0x01, 0xba, 0x44, 0x00];
    assert!(is_idx_file(idx_header));
    assert!(!is_idx_file(&sub_header));
}

#[test]
fn probe_sub_files() {
    let idx_header = b"# VobSub index file, v7 ...";
    let sub_header = [0x00u8, 0x00, 0x01, 0xba, 0x44, 0x00];
    assert!(is_sub_file(&sub_header));
    assert!(!is_sub_file(idx_header));
}

#[test]
fn backfill_missing_end_times() {
    let start = TimePoint::from_msecs(1000);
    // An explicit end is kept.
    assert_eq!(
        backfill_end(start, Some(TimePoint::from_msecs(2500)), None).msecs(),
        2500
    );
    // No next subtitle: five seconds after the start.
    assert_eq!(backfill_end(start, None, None).msecs(), 6000);
    // A next subtitle soon after: just before it.
    assert_eq!(
        backfill_end(start, None, Some(TimePoint::from_msecs(3000))).msecs(),
        2999
    );
    // A next subtitle far away: still five seconds.
    assert_eq!(
        backfill_end(start, None, Some(TimePoint::from_msecs(60000))).msecs(),
        6000
    );
}

#[test]
fn area_validation() {
    let good = AreaValues { x1: 1, y1: 2, x2: 5, y2: 9 };
    let a = Area::try_from(good).unwrap();
    assert_eq!(a.left(), 1);
    assert_eq!(a.top(), 2);
    assert_eq!(a.width(), 5);
    assert_eq!(a.height(), 8);
    assert!(Area::try_from(AreaValues { x1: 5, y1: 2, x2: 5, y2: 9 }).is_err());
    assert!(Area::try_from(AreaValues { x1: 1, y1: 9, x2: 5, y2: 9 }).is_err());
}

#[test]
fn control_offset_backwards_fails() {
    // The first control sequence at offset 6 links back to offset 4.
    let raw = [
        0x00u8, 0x0b, 0x00, 0x06, 0x00, 0x00, 0x00, 0x00, 0x00, 0x04, 0x01, 0xff,
    ];
    let err = subtitle(&raw, 0).unwrap_err();
    assert_eq!(err, VobSubError::ControlOffsetWentBackwards);
}
