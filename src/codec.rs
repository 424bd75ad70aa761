//! The two frame shapes: the HDP frame (ports and a send timestamp) and the
//! UDP-shaped frame (ports, a length and a zero checksum).
use vstd::prelude::*;
use crate::be::{be_digits, be_value, push_be, read_be, lemma_be_digits_len,
    lemma_be_round_trip, lemma_be_value_bound, lemma_pow256_values};

verus! {

/// Source port written into every frame.
pub const SOURCE_PORT: u16 = 420;

/// Destination port written into every frame.
pub const DEST_PORT: u16 = 420;

/// Header length of the HDP frame.
pub const HDP_HEADER_LEN: usize = 12;

/// Header length of the UDP-shaped frame.
pub const UDP_HEADER_LEN: usize = 8;

/// Which of the two frame shapes a run sends.
#[derive(Clone, Copy, Debug, PartialEq, Eq, Structural)]
pub enum FrameKind {
    Hdp,
    UdpShaped,
}

/// The fixed header length of a frame kind.
pub open spec fn header_len_of(kind: FrameKind) -> nat {
    match kind {
        FrameKind::Hdp => HDP_HEADER_LEN as nat,
        FrameKind::UdpShaped => UDP_HEADER_LEN as nat,
    }
}

/// The bytes of an HDP frame sent at `timestamp_ns` carrying `payload`.
pub open spec fn hdp_frame(timestamp_ns: u64, payload: Seq<u8>) -> Seq<u8> {
    be_digits(SOURCE_PORT as nat, 2) + be_digits(DEST_PORT as nat, 2) + be_digits(
        timestamp_ns as nat,
        8,
    ) + payload
}

/// The value of the length field of a UDP-shaped frame: header plus payload,
/// kept to sixteen bits.
pub open spec fn udp_length_field(payload_len: nat) -> nat {
    ((UDP_HEADER_LEN + payload_len) % 0x1_0000) as nat
}

/// The bytes of a UDP-shaped frame carrying `payload`.
pub open spec fn udp_frame(payload: Seq<u8>) -> Seq<u8> {
    be_digits(SOURCE_PORT as nat, 2) + be_digits(DEST_PORT as nat, 2) + be_digits(
        udp_length_field(payload.len()),
        2,
    ) + be_digits(0, 2) + payload
}

/// The bytes of a frame of the given kind; the timestamp only enters HDP frames.
pub open spec fn frame_bytes(kind: FrameKind, timestamp_ns: u64, payload: Seq<u8>) -> Seq<u8> {
    match kind {
        FrameKind::Hdp => hdp_frame(timestamp_ns, payload),
        FrameKind::UdpShaped => udp_frame(payload),
    }
}

impl FrameKind {
    /// Reads the command-line name of a frame kind: `hdp` or `udp`.
    pub fn from_token(token: &str) -> (r: Option<FrameKind>)
        ensures
            r == (if token@ == "hdp"@ {
                Some(FrameKind::Hdp)
            } else if token@ == "udp"@ {
                Some(FrameKind::UdpShaped)
            } else {
                None
            }),
    {
        proof {
            reveal_strlit("hdp");
            reveal_strlit("udp");
        }
        if token.unicode_len() != 3 {
            return None;
        }
        let c0 = token.get_char(0);
        let c1 = token.get_char(1);
        let c2 = token.get_char(2);
        if c0 == 'h' && c1 == 'd' && c2 == 'p' {
            assert(token@ =~= "hdp"@);
            Some(FrameKind::Hdp)
        } else if c0 == 'u' && c1 == 'd' && c2 == 'p' {
            assert(token@ =~= "udp"@);
            Some(FrameKind::UdpShaped)
        } else {
            assert(token@ != "hdp"@ && token@ != "udp"@) by {
                if token@ == "hdp"@ {
                    assert(token@[0] == 'h' && token@[1] == 'd' && token@[2] == 'p');
                }
                if token@ == "udp"@ {
                    assert(token@[0] == 'u' && token@[1] == 'd' && token@[2] == 'p');
                }
            }
            None
        }
    }

    /// Fixed header length of frames of this kind.
    pub fn header_len(&self) -> (r: usize)
        ensures
            r == header_len_of(*self),
    {
        match self {
            FrameKind::Hdp => HDP_HEADER_LEN,
            FrameKind::UdpShaped => UDP_HEADER_LEN,
        }
    }
}

/// Appends every byte of `src` to `out`.
fn push_all(out: &mut Vec<u8>, src: &[u8])
    ensures
        final(out)@ == old(out)@ + src@,
{
    let mut i: usize = 0;
    while i < src.len()
        invariant
            i <= src@.len(),
            out@ == old(out)@ + src@.subrange(0, i as int),
        decreases src@.len() - i,
    {
        out.push(src[i]);
        i = i + 1;
        assert(out@ =~= old(out)@ + src@.subrange(0, i as int));
    }
    assert(src@.subrange(0, i as int) =~= src@);
}

/// Builds an HDP frame: source port, destination port, the send timestamp in
/// nanoseconds since the Unix epoch, then the payload, all big-endian.
pub fn build_hdp_packet(payload: &[u8], timestamp_ns: u64) -> (r: Vec<u8>)
    ensures
        r@ == hdp_frame(timestamp_ns, payload@),
{
    let mut packet: Vec<u8> = Vec::new();
    push_be(&mut packet, SOURCE_PORT as u64, 2);
    push_be(&mut packet, DEST_PORT as u64, 2);
    push_be(&mut packet, timestamp_ns, 8);
    push_all(&mut packet, payload);
    assert(packet@ =~= hdp_frame(timestamp_ns, payload@));
    packet
}

/// Builds a UDP-shaped frame: source port, destination port, the length of
/// header and payload (kept to sixteen bits), a zero checksum, then the payload.
pub fn build_udp_packet(payload: &[u8]) -> (r: Vec<u8>)
    ensures
        r@ == udp_frame(payload@),
{
    let mut packet: Vec<u8> = Vec::new();
    push_be(&mut packet, SOURCE_PORT as u64, 2);
    push_be(&mut packet, DEST_PORT as u64, 2);
    let length: u64 = (UDP_HEADER_LEN as u64 + (payload.len() % 0x1_0000) as u64) % 0x1_0000;
    assert(length == udp_length_field(payload@.len()));
    push_be(&mut packet, length, 2);
    push_be(&mut packet, 0, 2);
    push_all(&mut packet, payload);
    assert(packet@ =~= udp_frame(payload@));
    packet
}

/// Builds a frame of the given kind around `payload`; `timestamp_ns` is the
/// send time that an HDP frame carries.
pub fn encode(kind: FrameKind, payload: &[u8], timestamp_ns: u64) -> (r: Vec<u8>)
    ensures
        r@ == frame_bytes(kind, timestamp_ns, payload@),
        r@.len() == header_len_of(kind) + payload@.len(),
{
    proof {
        lemma_frame_len(kind, timestamp_ns, payload@);
    }
    match kind {
        FrameKind::Hdp => build_hdp_packet(payload, timestamp_ns),
        FrameKind::UdpShaped => build_udp_packet(payload),
    }
}

/// Every frame is its kind's fixed header followed by the whole payload, so
/// its length is the header length plus the payload length.
pub proof fn lemma_frame_len(kind: FrameKind, timestamp_ns: u64, payload: Seq<u8>)
    ensures
        frame_bytes(kind, timestamp_ns, payload).len() == header_len_of(kind) + payload.len(),
{
    lemma_be_digits_len(SOURCE_PORT as nat, 2);
    lemma_be_digits_len(DEST_PORT as nat, 2);
    lemma_be_digits_len(timestamp_ns as nat, 8);
    lemma_be_digits_len(udp_length_field(payload.len()), 2);
    lemma_be_digits_len(0, 2);
}

/// In an HDP frame the first two fields read back as the fixed ports, the next
/// eight bytes as the timestamp, and what follows the header is the payload.
pub proof fn lemma_hdp_fields(timestamp_ns: u64, payload: Seq<u8>)
    ensures
        ({
            let b = hdp_frame(timestamp_ns, payload);
            &&& b.len() == HDP_HEADER_LEN + payload.len()
            &&& be_value(b.subrange(0, 2)) == SOURCE_PORT
            &&& be_value(b.subrange(2, 4)) == DEST_PORT
            &&& be_value(b.subrange(4, 12)) == timestamp_ns
            &&& b.subrange(12, b.len() as int) == payload
        }),
{
    let b = hdp_frame(timestamp_ns, payload);
    lemma_frame_len(FrameKind::Hdp, timestamp_ns, payload);
    lemma_be_digits_len(SOURCE_PORT as nat, 2);
    lemma_be_digits_len(DEST_PORT as nat, 2);
    lemma_be_digits_len(timestamp_ns as nat, 8);
    lemma_pow256_values();
    lemma_be_round_trip(SOURCE_PORT as nat, 2);
    lemma_be_round_trip(DEST_PORT as nat, 2);
    lemma_be_round_trip(timestamp_ns as nat, 8);
    assert(b.subrange(0, 2) =~= be_digits(SOURCE_PORT as nat, 2));
    assert(b.subrange(2, 4) =~= be_digits(DEST_PORT as nat, 2));
    assert(b.subrange(4, 12) =~= be_digits(timestamp_ns as nat, 8));
    assert(b.subrange(12, b.len() as int) =~= payload);
}

/// In a UDP-shaped frame whose size fits the sixteen-bit length field, the
/// length field reads back as header plus payload length, the checksum bytes
/// are zero, the ports are the fixed ones and the payload follows the header.
pub proof fn lemma_udp_fields(payload: Seq<u8>)
    requires
        UDP_HEADER_LEN + payload.len() <= u16::MAX,
    ensures
        ({
            let b = udp_frame(payload);
            &&& b.len() == UDP_HEADER_LEN + payload.len()
            &&& be_value(b.subrange(0, 2)) == SOURCE_PORT
            &&& be_value(b.subrange(2, 4)) == DEST_PORT
            &&& be_value(b.subrange(4, 6)) == UDP_HEADER_LEN + payload.len()
            &&& b.subrange(6, 8) == seq![0u8, 0u8]
            &&& b.subrange(8, b.len() as int) == payload
        }),
{
    let b = udp_frame(payload);
    let len_field = udp_length_field(payload.len());
    lemma_frame_len(FrameKind::UdpShaped, 0, payload);
    lemma_be_digits_len(SOURCE_PORT as nat, 2);
    lemma_be_digits_len(DEST_PORT as nat, 2);
    lemma_be_digits_len(len_field, 2);
    lemma_be_digits_len(0, 2);
    lemma_pow256_values();
    lemma_be_round_trip(SOURCE_PORT as nat, 2);
    lemma_be_round_trip(DEST_PORT as nat, 2);
    lemma_be_round_trip(len_field, 2);
    assert(b.subrange(0, 2) =~= be_digits(SOURCE_PORT as nat, 2));
    assert(b.subrange(2, 4) =~= be_digits(DEST_PORT as nat, 2));
    assert(b.subrange(4, 6) =~= be_digits(len_field, 2));
    reveal_with_fuel(be_digits, 3);
    assert(b.subrange(6, 8) =~= seq![0u8, 0u8]);
    assert(b.subrange(8, b.len() as int) =~= payload);
}

/// Why a byte buffer could not be read as a frame.
#[derive(Clone, Copy, Debug, PartialEq, Eq, Structural)]
pub enum CodecError {
    /// The buffer is shorter than the frame kind's header.
    TruncatedFrame,
}

/// The fields of a decoded HDP frame.
#[derive(Clone, Debug, PartialEq, Eq)]
pub struct HdpFrame {
    pub src_port: u16,
    pub dst_port: u16,
    pub timestamp_ns: u64,
    pub payload: Vec<u8>,
}

/// The fields of a decoded UDP-shaped frame.
#[derive(Clone, Debug, PartialEq, Eq)]
pub struct UdpFrame {
    pub src_port: u16,
    pub dst_port: u16,
    pub length: u16,
    pub checksum: u16,
    pub payload: Vec<u8>,
}

/// A decoded frame of either kind.
#[derive(Clone, Debug, PartialEq, Eq)]
pub enum Frame {
    Hdp(HdpFrame),
    Udp(UdpFrame),
}

/// `f` holds the fields that the bytes `b` of an HDP frame carry.
pub open spec fn hdp_fields_of(f: HdpFrame, b: Seq<u8>) -> bool {
    &&& b.len() >= HDP_HEADER_LEN
    &&& f.src_port == be_value(b.subrange(0, 2))
    &&& f.dst_port == be_value(b.subrange(2, 4))
    &&& f.timestamp_ns == be_value(b.subrange(4, 12))
    &&& f.payload@ == b.subrange(HDP_HEADER_LEN as int, b.len() as int)
}

/// `f` holds the fields that the bytes `b` of a UDP-shaped frame carry.
pub open spec fn udp_fields_of(f: UdpFrame, b: Seq<u8>) -> bool {
    &&& b.len() >= UDP_HEADER_LEN
    &&& f.src_port == be_value(b.subrange(0, 2))
    &&& f.dst_port == be_value(b.subrange(2, 4))
    &&& f.length == be_value(b.subrange(4, 6))
    &&& f.checksum == be_value(b.subrange(6, 8))
    &&& f.payload@ == b.subrange(UDP_HEADER_LEN as int, b.len() as int)
}

/// Copies `bytes[start..]` into a new vector.
fn tail_of(bytes: &[u8], start: usize) -> (r: Vec<u8>)
    requires
        start <= bytes@.len(),
    ensures
        r@ == bytes@.subrange(start as int, bytes@.len() as int),
{
    let mut out: Vec<u8> = Vec::new();
    let mut i: usize = start;
    while i < bytes.len()
        invariant
            start <= i <= bytes@.len(),
            out@ == bytes@.subrange(start as int, i as int),
        decreases bytes@.len() - i,
    {
        out.push(bytes[i]);
        i = i + 1;
        assert(out@ =~= bytes@.subrange(start as int, i as int));
    }
    out
}

/// Reads an HDP frame; fails with `TruncatedFrame` when the buffer is shorter
/// than the header.
pub fn decode_hdp(bytes: &[u8]) -> (r: Result<HdpFrame, CodecError>)
    ensures
        r is Err <==> bytes@.len() < HDP_HEADER_LEN,
        r matches Ok(f) ==> hdp_fields_of(f, bytes@),
        r matches Err(e) ==> e == CodecError::TruncatedFrame,
{
    if bytes.len() < HDP_HEADER_LEN {
        return Err(CodecError::TruncatedFrame);
    }
    proof {
        lemma_pow256_values();
        lemma_be_value_bound(bytes@.subrange(0, 2));
        lemma_be_value_bound(bytes@.subrange(2, 4));
    }
    let src_port = read_be(bytes, 0, 2) as u16;
    let dst_port = read_be(bytes, 2, 2) as u16;
    let timestamp_ns = read_be(bytes, 4, 8);
    let payload = tail_of(bytes, HDP_HEADER_LEN);
    Ok(HdpFrame { src_port, dst_port, timestamp_ns, payload })
}

/// Reads a UDP-shaped frame; fails with `TruncatedFrame` when the buffer is
/// shorter than the header. Neither the length nor the checksum is checked.
pub fn decode_udp(bytes: &[u8]) -> (r: Result<UdpFrame, CodecError>)
    ensures
        r is Err <==> bytes@.len() < UDP_HEADER_LEN,
        r matches Ok(f) ==> udp_fields_of(f, bytes@),
        r matches Err(e) ==> e == CodecError::TruncatedFrame,
{
    if bytes.len() < UDP_HEADER_LEN {
        return Err(CodecError::TruncatedFrame);
    }
    proof {
        lemma_pow256_values();
        lemma_be_value_bound(bytes@.subrange(0, 2));
        lemma_be_value_bound(bytes@.subrange(2, 4));
        lemma_be_value_bound(bytes@.subrange(4, 6));
        lemma_be_value_bound(bytes@.subrange(6, 8));
    }
    let src_port = read_be(bytes, 0, 2) as u16;
    let dst_port = read_be(bytes, 2, 2) as u16;
    let length = read_be(bytes, 4, 2) as u16;
    let checksum = read_be(bytes, 6, 2) as u16;
    let payload = tail_of(bytes, UDP_HEADER_LEN);
    Ok(UdpFrame { src_port, dst_port, length, checksum, payload })
}

/// Reads a frame of the given kind: the inverse of `encode`.
pub fn decode(kind: FrameKind, bytes: &[u8]) -> (r: Result<Frame, CodecError>)
    ensures
        r is Err <==> bytes@.len() < header_len_of(kind),
        r matches Err(e) ==> e == CodecError::TruncatedFrame,
        r matches Ok(fr) ==> match (kind, fr) {
            (FrameKind::Hdp, Frame::Hdp(f)) => hdp_fields_of(f, bytes@),
            (FrameKind::UdpShaped, Frame::Udp(f)) => udp_fields_of(f, bytes@),
            _ => false,
        },
{
    match kind {
        FrameKind::Hdp => match decode_hdp(bytes) {
            Ok(f) => Ok(Frame::Hdp(f)),
            Err(e) => Err(e),
        },
        FrameKind::UdpShaped => match decode_udp(bytes) {
            Ok(f) => Ok(Frame::Udp(f)),
            Err(e) => Err(e),
        },
    }
}

/// Decoding an encoded HDP frame gives back the fixed ports, the timestamp and
/// the payload.
pub proof fn lemma_hdp_round_trip(timestamp_ns: u64, payload: Seq<u8>, f: HdpFrame)
    requires
        hdp_fields_of(f, hdp_frame(timestamp_ns, payload)),
    ensures
        f.src_port == SOURCE_PORT,
        f.dst_port == DEST_PORT,
        f.timestamp_ns == timestamp_ns,
        f.payload@ == payload,
{
    lemma_hdp_fields(timestamp_ns, payload);
}

/// Decoding an encoded UDP-shaped frame whose size fits the length field gives
/// back the fixed ports, the length, a zero checksum and the payload.
pub proof fn lemma_udp_round_trip(payload: Seq<u8>, f: UdpFrame)
    requires
        UDP_HEADER_LEN + payload.len() <= u16::MAX,
        udp_fields_of(f, udp_frame(payload)),
    ensures
        f.src_port == SOURCE_PORT,
        f.dst_port == DEST_PORT,
        f.length == UDP_HEADER_LEN + payload.len(),
        f.checksum == 0,
        f.payload@ == payload,
{
    lemma_udp_fields(payload);
    reveal_with_fuel(be_value, 3);
}

} // verus!
