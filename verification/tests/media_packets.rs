//! RTP packets on the wire.
use mumble_web_proxy::media::{check_extension, read_packet, write_packet, MuxedPacket};
use mumble_web_proxy::messages::RtpPacket;

fn packet(marker: bool, payload_type: u8) -> RtpPacket {
    RtpPacket {
        marker,
        payload_type,
        seq_num: 0x0102,
        timestamp: 0x03040506,
        ssrc: 0x0708090a,
        payload: vec![21, 22, 23],
    }
}

fn header(first: u8, second: u8) -> Vec<u8> {
    vec![first, second, 1, 2, 3, 4, 5, 6, 7, 8, 9, 10]
}

#[test]
fn packet_is_written_in_network_order() {
    let mut expected = header(0x80, 0xe1);
    expected.extend([21, 22, 23]);
    assert_eq!(write_packet(packet(true, 97)), expected);
    let mut expected = header(0x80, 0x61);
    expected.extend([21, 22, 23]);
    assert_eq!(write_packet(packet(false, 97)), expected);
}

#[test]
fn written_packet_reads_back() {
    for (marker, payload_type) in [(true, 97), (false, 97), (false, 72), (true, 0), (true, 127)] {
        let bytes = write_packet(packet(marker, payload_type));
        assert_eq!(
            read_packet(&bytes),
            MuxedPacket::Rtp(packet(marker, payload_type))
        );
    }
}

#[test]
fn packet_without_payload_reads_back() {
    let empty = RtpPacket {
        payload: vec![],
        ..packet(false, 97)
    };
    let bytes = write_packet(empty);
    assert_eq!(bytes.len(), 12);
    assert_eq!(
        read_packet(&bytes),
        MuxedPacket::Rtp(RtpPacket {
            payload: vec![],
            ..packet(false, 97)
        })
    );
}

#[test]
fn rtcp_is_told_apart_by_its_type() {
    for kind in 192..=223 {
        assert_eq!(read_packet(&header(0x80, kind)), MuxedPacket::Rtcp);
    }
    for (kind, payload_type) in [(191, 63), (224, 96)] {
        let expected = RtpPacket {
            payload: vec![],
            ..packet(true, payload_type)
        };
        assert_eq!(
            read_packet(&header(0x80, kind)),
            MuxedPacket::Rtp(expected)
        );
    }
    assert_eq!(read_packet(&[0x80, 200]), MuxedPacket::Rtcp);
}

#[test]
fn short_packets_are_malformed() {
    assert_eq!(read_packet(&[]), MuxedPacket::Malformed);
    assert_eq!(read_packet(&[0x80]), MuxedPacket::Malformed);
    assert_eq!(read_packet(&[0x80, 97]), MuxedPacket::Malformed);
    assert_eq!(
        read_packet(&header(0x80, 97)[..11]),
        MuxedPacket::Malformed
    );
}

#[test]
fn contributing_sources_are_skipped() {
    let mut bytes = header(0x82, 97);
    bytes.extend([1, 1, 1, 1, 2, 2, 2, 2, 21, 22, 23]);
    assert_eq!(
        read_packet(&bytes),
        MuxedPacket::Rtp(packet(false, 97))
    );
    assert_eq!(read_packet(&bytes[..19]), MuxedPacket::Malformed);
}

#[test]
fn padding_is_cut_off() {
    let mut bytes = header(0xa0, 97);
    bytes.extend([21, 22, 23, 0, 2]);
    assert_eq!(
        read_packet(&bytes),
        MuxedPacket::Rtp(packet(false, 97))
    );
}

#[test]
fn header_extension_is_skipped() {
    let mut bytes = header(0x90, 97);
    bytes.extend([0xbe, 0xde, 0, 1, 0x10, 0xaa, 0, 0, 21, 22, 23]);
    assert!(check_extension(&bytes));
    assert_eq!(
        read_packet(&bytes),
        MuxedPacket::Rtp(packet(false, 97))
    );
    let mut bytes = header(0x90, 97);
    bytes.extend([0x10, 0x00, 0, 1, 1, 2, 5, 6, 21, 22, 23]);
    assert!(check_extension(&bytes));
    assert_eq!(
        read_packet(&bytes),
        MuxedPacket::Rtp(packet(false, 97))
    );
    let mut bytes = header(0x90, 97);
    bytes.extend([0x12, 0x34, 0, 1, 0xff, 0xff, 0xff, 0xff, 21, 22, 23]);
    assert!(check_extension(&bytes));
    assert_eq!(
        read_packet(&bytes),
        MuxedPacket::Rtp(packet(false, 97))
    );
}

#[test]
fn element_past_the_end_is_malformed() {
    let mut bytes = header(0x90, 97);
    bytes.extend([0xbe, 0xde, 0, 1, 0x1f, 0xaa, 0, 0]);
    assert!(!check_extension(&bytes));
    assert_eq!(read_packet(&bytes), MuxedPacket::Malformed);
    let mut bytes = header(0x90, 97);
    bytes.extend([0x10, 0x00, 0, 1, 1, 200, 0, 0]);
    assert!(!check_extension(&bytes));
    assert_eq!(read_packet(&bytes), MuxedPacket::Malformed);
    let mut bytes = header(0x90, 97);
    bytes.extend([0x10, 0x00, 0, 1, 0, 0, 0, 1]);
    assert!(!check_extension(&bytes));
    assert_eq!(read_packet(&bytes), MuxedPacket::Malformed);
}

#[test]
fn reserved_element_ends_the_extension() {
    let mut bytes = header(0x90, 97);
    bytes.extend([0xbe, 0xde, 0, 1, 0xf1, 0xaa, 0, 0, 21, 22, 23]);
    assert!(check_extension(&bytes));
}

#[test]
fn extension_past_the_end_is_malformed() {
    let mut bytes = header(0x90, 97);
    bytes.extend([0xbe, 0xde, 0, 9, 0x1f, 0xaa, 0, 0]);
    assert!(check_extension(&bytes));
    assert_eq!(read_packet(&bytes), MuxedPacket::Malformed);
}
