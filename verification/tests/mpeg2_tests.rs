//! Tests of the MPEG-2 clock, `PES` packet and Program Stream parsers.

use subtile::bits::BitReader;
use subtile::vobsub::clock::{clock, clock_and_ext, Clock};
use subtile::vobsub::pes::{
    header_data, header_data_flags, packet, pts_dts, pts_dts_flags, Header, HeaderData,
    HeaderDataFlags, PtsDts, PtsDtsFlags,
};
use subtile::vobsub::ps;

#[test]
fn parse_clock() {
    let bytes = [0x44u8, 0x02, 0xc4, 0x82, 0x04];
    let mut r = BitReader::new_at(&bytes, 0, 2);
    let c = clock(&mut r).unwrap();
    assert_eq!(c, Clock::base(0b0_0000_0000_0010_1100_0001_0000_0100_0000));

    let bytes_ext = [0x44u8, 0x02, 0xc4, 0x82, 0x04, 0xa9];
    let mut r2 = BitReader::new_at(&bytes_ext, 0, 2);
    let c2 = clock_and_ext(&mut r2).unwrap();
    assert_eq!(
        c2,
        Clock::base(0b0_0000_0000_0010_1100_0001_0000_0100_0000).with_ext(0b0_0101_0100)
    );
}

#[test]
fn parse_pts_dts_flags() {
    let b0 = [0b00u8];
    let mut r0 = BitReader::new_at(&b0, 0, 6);
    assert_eq!(pts_dts_flags(&mut r0), Ok(PtsDtsFlags::NoTimestamps));
    let b1 = [0b10u8];
    let mut r1 = BitReader::new_at(&b1, 0, 6);
    assert_eq!(pts_dts_flags(&mut r1), Ok(PtsDtsFlags::Pts));
    let b2 = [0b11u8];
    let mut r2 = BitReader::new_at(&b2, 0, 6);
    assert_eq!(pts_dts_flags(&mut r2), Ok(PtsDtsFlags::PtsDts));
}

#[test]
fn parse_pts_dts() {
    assert_eq!(pts_dts(&[], 0, 0, PtsDtsFlags::NoTimestamps), Ok(None));
    let bytes = [0x21u8, 0x00, 0xab, 0xe9, 0xc1];
    assert_eq!(
        pts_dts(&bytes, 0, 5, PtsDtsFlags::Pts),
        Ok(Some(PtsDts { pts: Clock::base(2_815_200), dts: None }))
    );
}

#[test]
fn parse_header_data_flags() {
    assert_eq!(
        header_data_flags(&[0x80], 0),
        Ok(HeaderDataFlags { pts_dts_flags: PtsDtsFlags::Pts, ..HeaderDataFlags::default() })
    );
}

#[test]
fn parse_header_data() {
    let (hd, end) = header_data(&[0x00, 0x00], 0).unwrap();
    assert_eq!(hd, HeaderData::default());
    assert_eq!(end, 2);

    let bytes = [0x80u8, 0x05, 0x21, 0x00, 0xab, 0xe9, 0xc1];
    let (hd2, end2) = header_data(&bytes, 0).unwrap();
    assert_eq!(
        hd2,
        HeaderData {
            flags: HeaderDataFlags { pts_dts_flags: PtsDtsFlags::Pts, ..HeaderDataFlags::default() },
            pts_dts: Some(PtsDts { pts: Clock::base(2_815_200), dts: None }),
        }
    );
    assert_eq!(end2, 7);
}

#[test]
fn parse_packet() {
    let input = [
        0x00u8, 0x00, 0x01, 0xbd, 0x00, 0x10, 0x81, 0x80, 0x05, 0x21, 0x00, 0xab, 0xe9, 0xc1,
        0x20, 0x00, 0x00, 0x00, 0x00, 0x00, 0x00, 0x00, 0xff,
    ];
    let (pkt, end) = packet(&input, 0).unwrap();
    assert_eq!(pkt.header, Header { original: true, ..Header::default() });
    assert_eq!(
        pkt.header_data,
        subtile::vobsub::pes::HeaderData {
            flags: HeaderDataFlags { pts_dts_flags: PtsDtsFlags::Pts, ..HeaderDataFlags::default() },
            pts_dts: Some(PtsDts { pts: Clock::base(2_815_200), dts: None }),
        }
    );
    assert_eq!(pkt.substream_id, 0x20);
    assert_eq!(pkt.data, &[0x00u8, 0x00, 0x00, 0x00, 0x00, 0x00, 0x00][..]);
    // One trailing byte remains after the declared packet region.
    assert_eq!(end, input.len() - 1);
}

/// A valid Program Stream pack header with a zeroed clock and rate, no
/// stuffing, followed by the given `PES` bytes.
fn ps_packet_bytes(pes: &[u8]) -> Vec<u8> {
    let mut v = vec![0x00u8, 0x00, 0x01, 0xba];
    // Bit-packed fields: version tag 01, 33-bit clock with marker bits,
    // 9-bit extension with marker, 22-bit rate, marker bits 11, reserved
    // and zero stuffing length.
    let bits: Vec<u8> = {
        let mut s = String::new();
        s.push_str("01");
        s.push_str("000");
        s.push('1');
        s.push_str(&"0".repeat(15));
        s.push('1');
        s.push_str(&"0".repeat(15));
        s.push('1');
        s.push_str(&"0".repeat(9));
        s.push('1');
        s.push_str(&"0".repeat(22));
        s.push_str("11");
        s.push_str("00000");
        s.push_str("000");
        assert_eq!(s.len(), 80);
        s.as_bytes()
            .chunks(8)
            .map(|c| {
                let mut b = 0u8;
                for &bit in c {
                    b = (b << 1) | (bit - b'0');
                }
                b
            })
            .collect()
    };
    v.extend_from_slice(&bits);
    v.extend_from_slice(pes);
    v
}

const PES: [u8; 23] = [
    0x00, 0x00, 0x01, 0xbd, 0x00, 0x11, 0x81, 0x80, 0x05, 0x21, 0x00, 0xab, 0xe9, 0xc1, 0x20,
    0x00, 0x00, 0x00, 0x00, 0x00, 0x00, 0x00, 0xff,
];

#[test]
fn demux_finds_packet() {
    let stream = ps_packet_bytes(&PES);
    let mut packets = ps::pes_packets(&stream);
    let first = packets.next().expect("one packet").expect("parses");
    assert_eq!(first.pes_packet.substream_id, 0x20);
    assert_eq!(first.pes_packet.data.len(), 8);
    assert!(packets.next().is_none());
}

#[test]
fn demux_resyncs_over_garbage() {
    // Garbage bytes (no start code) before and between valid packets do
    // not lose the packets after them.
    let mut stream = vec![0x12u8, 0x34, 0x56, 0xba, 0x01, 0x02];
    stream.extend_from_slice(&ps_packet_bytes(&PES));
    stream.extend_from_slice(&[0xff, 0xfe, 0xfd]);
    stream.extend_from_slice(&ps_packet_bytes(&PES));
    let mut packets = ps::pes_packets(&stream);
    let first = packets.next().expect("first packet").expect("parses");
    assert_eq!(first.pes_packet.substream_id, 0x20);
    let second = packets.next().expect("second packet").expect("parses");
    assert_eq!(second.pes_packet.substream_id, 0x20);
    assert!(packets.next().is_none());
}

#[test]
fn demux_stops_on_truncated_packet() {
    // A start code whose packet runs past the end of the data surfaces as
    // an error and ends the iteration.
    let mut stream = ps_packet_bytes(&PES);
    stream.truncate(stream.len() - 4);
    let mut packets = ps::pes_packets(&stream);
    let first = packets.next().expect("one result");
    assert!(matches!(
        first,
        Err(subtile::vobsub::VobSubError::PESPacket(subtile::vobsub::ParseError::Incomplete))
    ));
    assert!(packets.next().is_none());
}
