//! End-to-end tests: a whole VobSub subtitle through the demultiplexer,
//! the control interpreter and the image decoder; text writers; byte
//! rendering.

use subtile::util::BytesFormatter;
use subtile::image::{ImageArea, ImageSize};
use subtile::srt;
use subtile::time::{TimePoint, TimeSpan};
use subtile::vobsub::sub::VobsubParser;
use subtile::webvtt;

/// One whole subpicture: a 2 by 2 image of pixel value 3, a palette and
/// alpha quad, and a single terminal control sequence.
fn subpicture_bytes() -> Vec<u8> {
    vec![
        0x00, 0x1e, // packet size: 30 bytes
        0x00, 0x06, // initial control offset
        0xb0, // even scan lines: one run of two pixels of value 3
        0xb0, // odd scan lines: the same
        0x00, 0x00, // control sequence date
        0x00, 0x06, // next offset: itself, the terminal sequence
        0x01, // start date
        0x03, 0x01, 0x23, // palette quad [0, 1, 2, 3]
        0x04, 0xf0, 0x00, // alpha quad [15, 0, 0, 0]
        0x05, 0x00, 0x00, 0x01, 0x00, 0x00, 0x01, // area corners (0,0)-(1,1)
        0x06, 0x00, 0x04, 0x00, 0x05, // scan-line offsets 4 and 5
        0xff, // end of the control sequence
    ]
}

/// The five serialized bytes of a presentation time stamp: the `0010`
/// tag nibble, then the 33-bit clock base with its three marker bits.
fn pts_stamp(base: u64) -> [u8; 5] {
    let mut bits = String::new();
    bits.push_str("0010");
    for k in (30..33).rev() {
        bits.push(if (base >> k) & 1 == 1 { '1' } else { '0' });
    }
    bits.push('1');
    for k in (15..30).rev() {
        bits.push(if (base >> k) & 1 == 1 { '1' } else { '0' });
    }
    bits.push('1');
    for k in (0..15).rev() {
        bits.push(if (base >> k) & 1 == 1 { '1' } else { '0' });
    }
    bits.push('1');
    let mut out = [0u8; 5];
    for (i, c) in bits.bytes().enumerate() {
        out[i / 8] = (out[i / 8] << 1) | (c - b'0');
    }
    out
}

/// One whole Program Stream packet carrying the subpicture payload with
/// the given presentation time stamp.
fn ps_packet_with(base: u64, payload: &[u8]) -> Vec<u8> {
    let mut v = vec![0x00u8, 0x00, 0x01, 0xba];
    let bits: Vec<u8> = {
        let mut s = String::new();
        s.push_str("01");
        s.push_str("000");
        s.push('1');
        s.push_str(&"0".repeat(15));
        s.push('1');
        s.push_str(&"0".repeat(15));
        s.push('1');
        s.push_str(&"0".repeat(9));
        s.push('1');
        s.push_str(&"0".repeat(22));
        s.push_str("11");
        s.push_str("00000");
        s.push_str("000");
        s.as_bytes()
            .chunks(8)
            .map(|c| {
                let mut b = 0u8;
                for &bit in c {
                    b = (b << 1) | (bit - b'0');
                }
                b
            })
            .collect()
    };
    v.extend_from_slice(&bits);
    // PES packet: header, the time stamp, substream 0x20, then the
    // subpicture payload.
    let pes_len = 3 + 5 + 1 + payload.len();
    v.extend_from_slice(&[0x00, 0x00, 0x01, 0xbd]);
    v.push((pes_len >> 8) as u8);
    v.push((pes_len & 0xff) as u8);
    v.extend_from_slice(&[0x81, 0x80, 0x05]);
    v.extend_from_slice(&pts_stamp(base));
    v.push(0x20);
    v.extend_from_slice(payload);
    v
}

/// The subpicture wrapped in one Program Stream packet with a PTS of
/// 2815200 clock ticks.
fn sub_stream_bytes() -> Vec<u8> {
    ps_packet_with(2_815_200, &subpicture_bytes())
}

#[test]
fn parse_whole_subtitle() {
    let stream = sub_stream_bytes();
    let mut subs = VobsubParser::new(&stream);
    let (span, img) = subs.next().expect("one subtitle").expect("parses");
    // The PTS of 2815200 ticks is 31280 milliseconds; no stop date was
    // given, so the end is five seconds later.
    assert_eq!(span.start.msecs(), 31280);
    assert_eq!(span.end.msecs(), 36280);
    // The palette and alpha quads come out reversed, ready for direct
    // indexing by pixel value.
    assert_eq!(*img.palette(), [3, 2, 1, 0]);
    assert_eq!(*img.alpha(), [0, 0, 0, 15]);
    assert_eq!(img.raw_image(), &[3u8, 3, 3, 3][..]);
    let area = img.area();
    assert_eq!(area.left(), 0);
    assert_eq!(area.top(), 0);
    assert_eq!(img.width(), 2);
    assert_eq!(img.height(), 2);
    assert!(subs.next().is_none());
}

#[test]
fn backfill_uses_next_subtitle_start() {
    // Two subtitles without stop dates: the first ends just before the
    // second starts; the second, with nothing after it, ends five
    // seconds after its own start.
    let mut stream = ps_packet_with(2_815_200, &subpicture_bytes());
    stream.extend_from_slice(&ps_packet_with(2_995_200, &subpicture_bytes()));
    let mut subs = VobsubParser::new(&stream);
    let (first, _) = subs.next().expect("first subtitle").expect("parses");
    assert_eq!(first.start.msecs(), 31280);
    assert_eq!(first.end.msecs(), 33279);
    let (second, _) = subs.next().expect("second subtitle").expect("parses");
    assert_eq!(second.start.msecs(), 33280);
    assert_eq!(second.end.msecs(), 38280);
    assert!(subs.next().is_none());
}

#[test]
fn lookahead_error_keeps_buffered_subtitle() {
    // A good subtitle without a stop date, then a subpicture whose
    // control offset points past its packet.  The downstream error
    // surfaces first; the buffered subtitle is emitted intact on the
    // next call, its end five seconds after its start since nothing
    // parseable follows.
    let bad_payload = [0x00u8, 0x05, 0x00, 0x20, 0xff];
    let mut stream = ps_packet_with(2_815_200, &subpicture_bytes());
    stream.extend_from_slice(&ps_packet_with(2_995_200, &bad_payload));
    let mut subs = VobsubParser::new(&stream);
    let first = subs.next().expect("a result");
    assert!(matches!(
        first,
        Err(subtile::vobsub::VobSubError::ControlOffsetBiggerThanPacket { offset: 0x20, packet: 5 })
    ));
    let (span, img) = subs.next().expect("the buffered subtitle").expect("parses");
    assert_eq!(span.start.msecs(), 31280);
    assert_eq!(span.end.msecs(), 36280);
    assert_eq!(img.raw_image(), &[3u8, 3, 3, 3][..]);
    assert!(subs.next().is_none());
}

#[test]
fn write_srt_lines() {
    let span = TimeSpan::new(TimePoint::from_msecs(1000), TimePoint::from_msecs(2500));
    let line = srt::write_line(1, &span, "Hello");
    assert_eq!(line, "1\n00:00:01,000 --> 00:00:02,500\nHello\n");
    let subs = vec![(span, String::from("Hello")), (span, String::from("Again"))];
    let text = srt::write_srt(&subs);
    assert_eq!(
        text,
        "1\n00:00:01,000 --> 00:00:02,500\nHello\n2\n00:00:01,000 --> 00:00:02,500\nAgain\n"
    );
}

#[test]
fn write_vtt_line() {
    let span = TimeSpan::new(TimePoint::from_msecs(1000), TimePoint::from_msecs(2500));
    let line = webvtt::write_line(&span, "Hello");
    assert_eq!(line, "00:00:01.000 --> 00:00:02.500\nHello\n\n");
}

#[test]
fn render_bytes() {
    let bytes = [0x0au8, 0xff, 0x10];
    let shown = BytesFormatter(&bytes).render();
    assert_eq!(shown, "0a ff 10 (3 bytes)");
    let many = [0u8; 20];
    let shown_many = BytesFormatter(&many).render();
    assert_eq!(shown_many, format!("{}(20 bytes)", "00 ".repeat(16)));
}

#[test]
fn render_time_wrappers() {
    let t = TimePoint::from_msecs(61_002);
    assert_eq!(subtile::srt::TimePointSrt::from(t).render(), "00:01:01,002");
    assert_eq!(subtile::webvtt::TimePointVtt::from(t).render(), "00:01:01.002");
    assert_eq!(subtile::vobsub::idx::TimePointIdx::from(t).render(), "00:01:01:002");
}
