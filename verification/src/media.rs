//! RTP packets on the wire.
//!
//! RTP and RTCP share one channel (RFC 5761). The `rtp` crate reads and writes the packets; this
//! module tells the two kinds apart and keeps packets from the crate's reader on which it would
//! run past the end of the packet.
use crate::messages::{RtpPacket, RtpPacketView};
use rtp::header::Header;
use rtp::packet::Packet;
use vstd::prelude::*;
use webrtc_util::marshal::{Marshal, Unmarshal};

verus! {

/// The number that `n` bytes from `at` on stand for, the most significant byte first.
pub open spec fn big_endian(bytes: Seq<u8>, at: int, n: nat) -> int
    decreases n,
{
    if n == 0 {
        0
    } else {
        big_endian(bytes, at, (n - 1) as nat) * 256 + bytes[at + n - 1]
    }
}

/// `value` in `n` bytes, the most significant byte first.
pub open spec fn to_big_endian(value: int, n: nat) -> Seq<u8>
    decreases n,
{
    if n == 0 {
        Seq::empty()
    } else {
        to_big_endian(value / 256, (n - 1) as nat).push((value % 256) as u8)
    }
}

/// The first byte of a packet of version 2 without padding, contributing sources or extension.
pub const PLAIN_FIRST_BYTE: u8 = 0x80;

/// The bytes of an RTP packet.
pub open spec fn rtp_bytes(packet: RtpPacketView) -> Seq<u8> {
    seq![
        PLAIN_FIRST_BYTE,
        if packet.marker {
            packet.payload_type | 0x80
        } else {
            packet.payload_type
        },
    ] + to_big_endian(packet.seq_num as int, 2) + to_big_endian(packet.timestamp as int, 4)
        + to_big_endian(packet.ssrc as int, 4) + packet.payload
}

/// The packet in bytes that begin with [`PLAIN_FIRST_BYTE`].
pub open spec fn plain_rtp_packet(bytes: Seq<u8>) -> RtpPacketView {
    RtpPacketView {
        marker: bytes[1] >= 0x80,
        payload_type: bytes[1] & 0x7f,
        seq_num: big_endian(bytes, 2, 2) as u16,
        timestamp: big_endian(bytes, 4, 4) as u32,
        ssrc: big_endian(bytes, 8, 4) as u32,
        payload: bytes.skip(12),
    }
}

/// The packet that was read, if one was.
pub open spec fn packet_view(packet: Option<RtpPacket>) -> Option<RtpPacketView> {
    match packet {
        Some(p) => Some(p@),
        None => None,
    }
}

/// What `rtp::packet::Packet::unmarshal` makes of some bytes, without padding, contributing
/// sources and extension; nothing where it reports an error.
pub uninterp spec fn rtp_packet(bytes: Seq<u8>) -> Option<RtpPacketView>;

/// Calls `marshal` on an `rtp::packet::Packet` of version 2 that has the fields of `packet` and
/// no padding, contributing sources or extension. It succeeds, and the result is the twelve
/// bytes of the header, numbers most significant byte first, and the payload. Where the payload
/// type fits its seven bits, `rtp::packet::Packet::unmarshal` reads the same packet back.
#[verifier::external_body]
pub(crate) fn marshal_rtp(packet: RtpPacket) -> (bytes: Option<Vec<u8>>)
    ensures
        bytes is Some,
        bytes->0@ == rtp_bytes(packet@),
        packet.payload_type < 0x80 ==> rtp_packet(bytes->0@) == Some(packet@),
{
    let header = Header {
        version: 2,
        marker: packet.marker,
        payload_type: packet.payload_type,
        sequence_number: packet.seq_num,
        timestamp: packet.timestamp,
        ssrc: packet.ssrc,
        ..Header::default()
    };
    Packet { header, payload: packet.payload.into() }.marshal().ok().map(|b| b.to_vec())
}

/// Calls `rtp::packet::Packet::unmarshal`, which depends on the bytes alone. Of a packet
/// without padding, contributing sources and extension it reads the fields off the twelve bytes
/// of the header and takes the rest as the payload. It panics where an element of a header
/// extension runs past the end of the packet, so such bytes are left out.
#[verifier::external_body]
pub(crate) fn unmarshal_rtp(bytes: &[u8]) -> (packet: Option<RtpPacket>)
    requires
        extension_fits(bytes@),
    ensures
        packet_view(packet) == rtp_packet(bytes@),
        bytes@.len() >= 12 && bytes@[0] == PLAIN_FIRST_BYTE ==> packet_view(packet) == Some(
            plain_rtp_packet(bytes@),
        ),
{
    let mut reader = bytes;
    Packet::unmarshal(&mut reader).ok().map(|p| RtpPacket {
        marker: p.header.marker,
        payload_type: p.header.payload_type,
        seq_num: p.header.sequence_number,
        timestamp: p.header.timestamp,
        ssrc: p.header.ssrc,
        payload: p.payload.to_vec(),
    })
}

/// Where the extension of a packet starts: behind the fixed header and the contributing sources.
pub open spec fn extension_start(bytes: Seq<u8>) -> int {
    12 + 4 * (bytes[0] & 0xf) as int
}

/// Whether a packet has a header extension, all of whose announced length lies in the packet.
pub open spec fn has_extension(bytes: Seq<u8>) -> bool {
    let start = extension_start(bytes);
    &&& bytes.len() >= 12
    &&& bytes[0] & 0x10 != 0
    &&& bytes.len() >= start + 4
    &&& bytes.len() >= extension_end(bytes)
}

/// Where the extension of a packet ends, by the length in its header.
pub open spec fn extension_end(bytes: Seq<u8>) -> int {
    let start = extension_start(bytes);
    start + 4 + 4 * big_endian(bytes, start + 2, 2)
}

/// The extension format whose elements have a header of one byte (RFC 8285).
pub const ONE_BYTE_PROFILE: u16 = 0xbede;

/// The extension format whose elements have a header of two bytes (RFC 8285).
pub const TWO_BYTE_PROFILE: u16 = 0x1000;

/// Whether the elements from `at` up to `end`, with headers of one byte, lie in the packet.
pub open spec fn one_byte_elements_fit(bytes: Seq<u8>, at: int, end: int) -> bool
    decreases
            (if at < end {
                end - at
            } else {
                0
            }),
{
    if at >= end {
        true
    } else if bytes[at] == 0 {
        one_byte_elements_fit(bytes, at + 1, end)
    } else if bytes[at] >> 4 == 0xf {
        true
    } else {
        let next = at + 2 + (bytes[at] & 0xf) as int;
        next <= bytes.len() && one_byte_elements_fit(bytes, next, end)
    }
}

/// Whether the elements from `at` up to `end`, with headers of two bytes, lie in the packet.
pub open spec fn two_byte_elements_fit(bytes: Seq<u8>, at: int, end: int) -> bool
    decreases
            (if at < end {
                end - at
            } else {
                0
            }),
{
    if at >= end {
        true
    } else if bytes[at] == 0 {
        two_byte_elements_fit(bytes, at + 1, end)
    } else {
        let next = at + 2 + bytes[at + 1] as int;
        at + 1 < bytes.len() && next <= bytes.len() && two_byte_elements_fit(bytes, next, end)
    }
}

/// Whether no element of a packet's header extension runs past the end of the packet.
pub open spec fn extension_fits(bytes: Seq<u8>) -> bool {
    has_extension(bytes) ==> {
        let start = extension_start(bytes);
        let profile = big_endian(bytes, start, 2);
        &&& profile == ONE_BYTE_PROFILE ==> one_byte_elements_fit(
            bytes,
            start + 4,
            extension_end(bytes),
        )
        &&& profile == TWO_BYTE_PROFILE ==> two_byte_elements_fit(
            bytes,
            start + 4,
            extension_end(bytes),
        )
    }
}

/// The number in the two bytes at `at`.
fn read_u16(bytes: &[u8], at: usize) -> (value: u16)
    requires
        at + 1 < bytes@.len(),
    ensures
        value == big_endian(bytes@, at as int, 2),
{
    reveal_with_fuel(big_endian, 3);
    bytes[at] as u16 * 256 + bytes[at + 1] as u16
}

/// Whether no element of the packet's header extension runs past the end of the packet.
pub fn check_extension(bytes: &[u8]) -> (fits: bool)
    ensures
        fits == extension_fits(bytes@),
{
    let len: usize = bytes.len();
    if len < 12 || bytes[0] & 0x10 == 0 {
        return true;
    }
    let first: u8 = bytes[0];
    let sources: u8 = first & 0xf;
    assert(first & 0xf <= 15) by (bit_vector);
    let start: usize = 12 + 4 * sources as usize;
    if len < start + 4 {
        return true;
    }
    let profile: u16 = read_u16(bytes, start);
    let words: u16 = read_u16(bytes, start + 2);
    let end: usize = start + 4 + 4 * words as usize;
    if len < end {
        return true;
    }
    if profile != ONE_BYTE_PROFILE && profile != TWO_BYTE_PROFILE {
        return true;
    }
    let one_byte: bool = profile == ONE_BYTE_PROFILE;
    let mut at: usize = start + 4;
    while at < end
        invariant
            len == bytes@.len(),
            end <= len,
            at <= len,
            one_byte ==> one_byte_elements_fit(bytes@, start + 4, end as int)
                == one_byte_elements_fit(bytes@, at as int, end as int),
            !one_byte ==> two_byte_elements_fit(bytes@, start + 4, end as int)
                == two_byte_elements_fit(bytes@, at as int, end as int),
            has_extension(bytes@),
            start == extension_start(bytes@),
            end == extension_end(bytes@),
            one_byte ==> profile == ONE_BYTE_PROFILE,
            !one_byte ==> profile == TWO_BYTE_PROFILE,
            profile == big_endian(bytes@, start as int, 2),
        decreases len - at,
    {
        let b: u8 = bytes[at];
        if b == 0 {
            at = at + 1;
        } else if one_byte {
            if b >> 4 == 0xf {
                return true;
            }
            let size: u8 = b & 0xf;
            assert(b & 0xf <= 15) by (bit_vector);
            if len - at < 2 + size as usize {
                return false;
            }
            at = at + 2 + size as usize;
        } else {
            if len - at < 2 {
                return false;
            }
            let size: u8 = bytes[at + 1];
            if len - at < 2 + size as usize {
                return false;
            }
            at = at + 2 + size as usize;
        }
    }
    true
}

/// What arrives on the media channel.
#[derive(Debug, PartialEq)]
pub enum MuxedPacket {
    Rtp(RtpPacket),
    Rtcp,
    /// Neither can be read.
    Malformed,
}

pub enum MuxedPacketView {
    Rtp(RtpPacketView),
    Rtcp,
    Malformed,
}

impl View for MuxedPacket {
    type V = MuxedPacketView;

    open spec fn view(&self) -> MuxedPacketView {
        match *self {
            MuxedPacket::Rtp(packet) => MuxedPacketView::Rtp(packet@),
            MuxedPacket::Rtcp => MuxedPacketView::Rtcp,
            MuxedPacket::Malformed => MuxedPacketView::Malformed,
        }
    }
}

/// Whether a packet can be told for what it is: its type has at most seven bits, and together
/// with the marker it is none of the packet types of RTCP.
pub open spec fn rtp_type_fits(packet: RtpPacketView) -> bool {
    &&& packet.payload_type < 0x80
    &&& packet.marker ==> !(64 <= packet.payload_type <= 95)
}

/// Whether bytes are an RTCP packet: RTP leaves these numbers to the packet types of RTCP.
pub open spec fn is_rtcp(bytes: Seq<u8>) -> bool {
    bytes.len() >= 2 && 192 <= bytes[1] <= 223
}

/// What the bytes of one packet of the media channel are.
pub open spec fn muxed_packet(bytes: Seq<u8>) -> MuxedPacketView {
    if is_rtcp(bytes) {
        MuxedPacketView::Rtcp
    } else if !extension_fits(bytes) {
        MuxedPacketView::Malformed
    } else {
        match rtp_packet(bytes) {
            Some(packet) => MuxedPacketView::Rtp(packet),
            None => MuxedPacketView::Malformed,
        }
    }
}

/// Reads a packet of the media channel.
pub fn read_packet(bytes: &[u8]) -> (packet: MuxedPacket)
    ensures
        packet@ == muxed_packet(bytes@),
        !is_rtcp(bytes@) && bytes@.len() >= 12 && bytes@[0] == PLAIN_FIRST_BYTE ==> packet@
            == MuxedPacketView::Rtp(plain_rtp_packet(bytes@)),
{
    if bytes.len() >= 2 && 192 <= bytes[1] && bytes[1] <= 223 {
        return MuxedPacket::Rtcp;
    }
    assert(PLAIN_FIRST_BYTE & 0x10 == 0) by (bit_vector);
    if !check_extension(bytes) {
        return MuxedPacket::Malformed;
    }
    match unmarshal_rtp(bytes) {
        Some(packet) => MuxedPacket::Rtp(packet),
        None => MuxedPacket::Malformed,
    }
}

/// Writes a packet of the media channel. Reading the bytes gives the packet back, where its
/// type fits its seven bits and RTCP does not claim it.
pub fn write_packet(packet: RtpPacket) -> (bytes: Vec<u8>)
    ensures
        bytes@ == rtp_bytes(packet@),
        rtp_type_fits(packet@) ==> muxed_packet(bytes@) == MuxedPacketView::Rtp(packet@),
{
    proof {
        assert(PLAIN_FIRST_BYTE & 0x10 == 0) by (bit_vector);
        if rtp_type_fits(packet@) {
            law_written_fields_read_back(packet@);
        }
    }
    match marshal_rtp(packet) {
        Some(bytes) => bytes,
        None => {
            assert(false);
            Vec::new()
        },
    }
}

proof fn lemma_big_endian_2(value: u16, bytes: Seq<u8>, at: int)
    requires
        0 <= at,
        at + 2 <= bytes.len(),
        bytes.subrange(at, at + 2) == to_big_endian(value as int, 2),
    ensures
        big_endian(bytes, at, 2) == value,
{
    reveal_with_fuel(big_endian, 3);
    reveal_with_fuel(to_big_endian, 3);
    let part = bytes.subrange(at, at + 2);
    assert(part[0] == bytes[at] && part[1] == bytes[at + 1]);
}

proof fn lemma_big_endian_4(value: u32, bytes: Seq<u8>, at: int)
    requires
        0 <= at,
        at + 4 <= bytes.len(),
        bytes.subrange(at, at + 4) == to_big_endian(value as int, 4),
    ensures
        big_endian(bytes, at, 4) == value,
{
    reveal_with_fuel(big_endian, 5);
    reveal_with_fuel(to_big_endian, 5);
    let part = bytes.subrange(at, at + 4);
    assert(part[0] == bytes[at] && part[1] == bytes[at + 1] && part[2] == bytes[at + 2] && part[3]
        == bytes[at + 3]);
}

/// The bytes of a packet, where its type can be told, are those of a plain RTP packet, and the
/// fields in them are the packet's own.
pub proof fn law_written_fields_read_back(packet: RtpPacketView)
    requires
        rtp_type_fits(packet),
    ensures
        rtp_bytes(packet).len() == 12 + packet.payload.len(),
        rtp_bytes(packet)[0] == PLAIN_FIRST_BYTE,
        !is_rtcp(rtp_bytes(packet)),
        plain_rtp_packet(rtp_bytes(packet)) == packet,
{
    reveal_with_fuel(to_big_endian, 5);
    let bytes = rtp_bytes(packet);
    let kind = packet.payload_type;
    assert(kind < 0x80 ==> (kind | 0x80) == kind + 0x80 && (kind | 0x80) & 0x7f == kind && kind
        & 0x7f == kind) by (bit_vector);
    assert(bytes.subrange(2, 4) =~= to_big_endian(packet.seq_num as int, 2));
    assert(bytes.subrange(4, 8) =~= to_big_endian(packet.timestamp as int, 4));
    assert(bytes.subrange(8, 12) =~= to_big_endian(packet.ssrc as int, 4));
    lemma_big_endian_2(packet.seq_num, bytes, 2);
    lemma_big_endian_4(packet.timestamp, bytes, 4);
    lemma_big_endian_4(packet.ssrc, bytes, 8);
    assert(bytes.skip(12) =~= packet.payload);
}

/// A packet is written as twelve bytes and its payload: the version, the marker and the type, the
/// number, the timestamp and the source, numbers with the most significant byte first.
pub proof fn law_packet_layout(packet: RtpPacketView)
    requires
        packet.payload_type < 128,
    ensures
        ({
            let b = rtp_bytes(packet);
            &&& b.len() == 12 + packet.payload.len()
            &&& b[0] == 128
            &&& b[1] == packet.payload_type + if packet.marker {
                128int
            } else {
                0
            }
            &&& b[2] * 256 + b[3] == packet.seq_num
            &&& b[4] * 0x100_0000 + b[5] * 0x1_0000 + b[6] * 256 + b[7] == packet.timestamp
            &&& b[8] * 0x100_0000 + b[9] * 0x1_0000 + b[10] * 256 + b[11] == packet.ssrc
            &&& b.skip(12) == packet.payload
        }),
{
    reveal_with_fuel(to_big_endian, 5);
    let b = rtp_bytes(packet);
    let kind = packet.payload_type;
    assert(kind < 128 ==> (kind | 0x80) == kind + 0x80) by (bit_vector);
    assert(b.skip(12) =~= packet.payload);
}

/// What arrives is RTCP exactly if its second byte is from 192 to 223, which tells it apart from
/// RTP. What is not is read as RTP, and what has no header extension is always read.
pub proof fn law_packets_are_told_apart(bytes: Seq<u8>)
    ensures
        muxed_packet(bytes) is Rtcp <==> bytes.len() >= 2 && 192 <= bytes[1] <= 223,
        !(muxed_packet(bytes) is Rtcp) && (bytes.len() < 12 || bytes[0] & 0x10 == 0)
            ==> muxed_packet(bytes) == match rtp_packet(bytes) {
            Some(packet) => MuxedPacketView::Rtp(packet),
            None => MuxedPacketView::Malformed,
        },
        muxed_packet(bytes) matches MuxedPacketView::Rtp(packet) ==> rtp_packet(bytes) == Some(
            packet,
        ),
{
}

/// A header extension in another format than those with elements keeps no packet from being
/// read, and neither does one that is longer than the packet: that is left to the reader.
pub proof fn law_other_extensions_are_read(bytes: Seq<u8>)
    requires
        bytes.len() >= 12,
        !(192 <= bytes[1] <= 223),
        ({
            let start = 12 + 4 * (bytes[0] & 0xf) as int;
            ||| bytes.len() < start + 4
            ||| bytes.len() < start + 4 + 4 * (bytes[start + 2] * 256 + bytes[start + 3])
            ||| !(bytes[start] == 0xbe && bytes[start + 1] == 0xde) && !(bytes[start] == 0x10
                && bytes[start + 1] == 0)
        }),
    ensures
        muxed_packet(bytes) == match rtp_packet(bytes) {
            Some(packet) => MuxedPacketView::Rtp(packet),
            None => MuxedPacketView::Malformed,
        },
{
    reveal_with_fuel(big_endian, 3);
}

/// Elements of a header extension fit one after the other: a zero byte is padding, and an
/// element with a header of one byte has from one to sixteen bytes behind it. Such a header with
/// the number fifteen ends the extension.
pub proof fn law_one_byte_elements(bytes: Seq<u8>, at: int, end: int)
    requires
        0 <= at,
    ensures
        at >= end ==> one_byte_elements_fit(bytes, at, end),
        at < end && bytes[at] == 0 ==> one_byte_elements_fit(bytes, at, end)
            == one_byte_elements_fit(bytes, at + 1, end),
        at < end && bytes[at] >= 0xf0 ==> one_byte_elements_fit(bytes, at, end),
        at < end && 0 < bytes[at] < 0xf0 ==> {
            let next = at + 2 + bytes[at] as int % 16;
            one_byte_elements_fit(bytes, at, end) <==> next <= bytes.len()
                && one_byte_elements_fit(bytes, next, end)
        },
{
    if at < end {
        let b: u8 = bytes[at];
        assert(b >> 4 == 0xf <==> b >= 0xf0) by (bit_vector);
        assert(b & 0xf == b % 16) by (bit_vector);
    }
}

/// An element with a header of two bytes has as many bytes behind it as the second one says.
pub proof fn law_two_byte_elements(bytes: Seq<u8>, at: int, end: int)
    requires
        0 <= at,
    ensures
        at >= end ==> two_byte_elements_fit(bytes, at, end),
        at < end && bytes[at] == 0 ==> two_byte_elements_fit(bytes, at, end)
            == two_byte_elements_fit(bytes, at + 1, end),
        at < end && bytes[at] != 0 ==> {
            let next = at + 2 + bytes[at + 1] as int;
            two_byte_elements_fit(bytes, at, end) <==> at + 1 < bytes.len() && next <= bytes.len()
                && two_byte_elements_fit(bytes, next, end)
        },
{
}

/// A packet whose header extension has elements is read if they fit, and not if they do not.
pub proof fn law_extensions_with_elements(bytes: Seq<u8>)
    requires
        bytes.len() >= 12,
        bytes[0] & 0x10 != 0,
        !(192 <= bytes[1] <= 223),
        bytes.len() >= 16 + 4 * (bytes[0] & 0xf) as int,
    ensures
        ({
            let start = 12 + 4 * (bytes[0] & 0xf) as int;
            let end = start + 4 + 4 * (bytes[start + 2] * 256 + bytes[start + 3]);
            let read = match rtp_packet(bytes) {
                Some(packet) => MuxedPacketView::Rtp(packet),
                None => MuxedPacketView::Malformed,
            };
            &&& bytes.len() >= end && bytes[start] == 0xbe && bytes[start + 1] == 0xde
                ==> muxed_packet(bytes) == if one_byte_elements_fit(bytes, start + 4, end) {
                read
            } else {
                MuxedPacketView::Malformed
            }
            &&& bytes.len() >= end && bytes[start] == 0x10 && bytes[start + 1] == 0
                ==> muxed_packet(bytes) == if two_byte_elements_fit(bytes, start + 4, end) {
                read
            } else {
                MuxedPacketView::Malformed
            }
        }),
{
    reveal_with_fuel(big_endian, 3);
}

/// The contracts tell what arrives apart and speak of the whole of an RTP packet.
pub proof fn law_arrival_is_seen_whole(packet: MuxedPacket)
    ensures
        match packet {
            MuxedPacket::Rtp(rtp) => packet@ == MuxedPacketView::Rtp(rtp@),
            MuxedPacket::Rtcp => packet@ is Rtcp,
            MuxedPacket::Malformed => packet@ is Malformed,
        },
{
}

} // verus!
