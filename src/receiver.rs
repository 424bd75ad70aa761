//! What the receiver reads from a captured packet, and where it archives it.
use vstd::prelude::*;
use crate::decimal::{decimal, push_decimal, lemma_decimal_injective};

verus! {

/// Length of the IPv4 header that a raw IPv4 socket hands over.
pub const IPV4_HEADER_LEN: usize = 20;

/// Offset of the protocol number in an IPv4 header.
pub const IPV4_PROTOCOL_OFFSET: usize = 9;

/// Offset of the source address in an IPv4 header.
pub const IPV4_SOURCE_OFFSET: usize = 12;

/// The address family that the receiver listens on.
#[derive(Clone, Copy, Debug, PartialEq, Eq, Structural)]
pub enum IpVersion {
    V4,
    V6,
}

impl IpVersion {
    /// `4` and `6` name the two families; any other number names none.
    pub fn from_number(v: u8) -> (r: Option<IpVersion>)
        ensures
            r == (if v == 4 {
                Some(IpVersion::V4)
            } else if v == 6 {
                Some(IpVersion::V6)
            } else {
                None
            }),
    {
        if v == 4 {
            Some(IpVersion::V4)
        } else if v == 6 {
            Some(IpVersion::V6)
        } else {
            None
        }
    }
}

/// Whether a captured packet starts with an IPv4 header to read. Raw IPv6
/// sockets deliver the packet without its IP header, and a shorter capture
/// holds no whole header.
pub open spec fn header_available(version: IpVersion, data: Seq<u8>) -> bool {
    version == IpVersion::V4 && data.len() >= IPV4_HEADER_LEN
}

/// Protocol number and source address read from a captured packet.
#[derive(Clone, Copy, Debug, PartialEq, Eq)]
pub struct PacketMeta {
    /// The IP protocol number, or `0` where no header was available.
    pub protocol: u8,
    /// The IPv4 source address, where a header was available.
    pub source: Option<[u8; 4]>,
}

/// Reads the protocol number (byte 9) and the source address (bytes 12 to 15)
/// of the IPv4 header at the start of `data`; where there is no such header,
/// reports protocol `0` and no address.
pub fn read_ip_metadata(version: IpVersion, data: &[u8]) -> (r: PacketMeta)
    ensures
        header_available(version, data@) ==> {
            &&& r.protocol == data@[IPV4_PROTOCOL_OFFSET as int]
            &&& r.source matches Some(a) && a@ == data@.subrange(
                IPV4_SOURCE_OFFSET as int,
                IPV4_SOURCE_OFFSET + 4,
            )
        },
        !header_available(version, data@) ==> r.protocol == 0 && r.source is None,
{
    match version {
        IpVersion::V4 => {
            if data.len() < IPV4_HEADER_LEN {
                return PacketMeta { protocol: 0, source: None };
            }
            let a: [u8; 4] = [data[12], data[13], data[14], data[15]];
            assert(a@ =~= data@.subrange(IPV4_SOURCE_OFFSET as int, IPV4_SOURCE_OFFSET + 4));
            PacketMeta { protocol: data[IPV4_PROTOCOL_OFFSET], source: Some(a) }
        },
        IpVersion::V6 => PacketMeta { protocol: 0, source: None },
    }
}

/// The dotted-decimal text of four address bytes.
pub open spec fn dotted(a: Seq<u8>) -> Seq<char> {
    decimal(a[0] as nat) + seq!['.'] + decimal(a[1] as nat) + seq!['.'] + decimal(a[2] as nat)
        + seq!['.'] + decimal(a[3] as nat)
}

/// Formats an IPv4 address in dotted-decimal form, such as `10.0.0.1`.
pub fn format_ipv4(octets: [u8; 4]) -> (r: String)
    ensures
        r@ == dotted(octets@),
{
    proof {
        reveal_strlit(".");
        reveal_strlit("");
    }
    let mut s = String::from_str("");
    push_decimal(&mut s, octets[0] as u128);
    s.append(".");
    push_decimal(&mut s, octets[1] as u128);
    s.append(".");
    push_decimal(&mut s, octets[2] as u128);
    s.append(".");
    push_decimal(&mut s, octets[3] as u128);
    assert(s@ =~= dotted(octets@));
    s
}

/// What stands for the source address where none could be read.
pub open spec fn unknown_source() -> Seq<char> {
    "unknown"@
}

/// The summary of one received packet.
#[derive(Clone, Debug, PartialEq, Eq)]
pub struct ReceptionRecord {
    /// The IP protocol number, or `0` where no header was available.
    pub ip_protocol: u8,
    /// Arrival time, in microseconds since the Unix epoch.
    pub arrival_time_us: u128,
    /// The dotted-decimal source address, or `unknown`.
    pub source_addr: String,
    /// How many bytes arrived.
    pub byte_count: usize,
}

/// Summarises a packet of `data` that arrived at `arrival_time_us`.
pub fn describe_reception(version: IpVersion, data: &[u8], arrival_time_us: u128) -> (r:
    ReceptionRecord)
    ensures
        r.arrival_time_us == arrival_time_us,
        r.byte_count == data@.len(),
        header_available(version, data@) ==> {
            &&& r.ip_protocol == data@[IPV4_PROTOCOL_OFFSET as int]
            &&& r.source_addr@ == dotted(
                data@.subrange(IPV4_SOURCE_OFFSET as int, IPV4_SOURCE_OFFSET + 4),
            )
        },
        !header_available(version, data@) ==> r.ip_protocol == 0 && r.source_addr@
            == unknown_source(),
{
    let meta = read_ip_metadata(version, data);
    let source_addr = match meta.source {
        Some(a) => format_ipv4(a),
        None => String::from_str("unknown"),
    };
    ReceptionRecord {
        ip_protocol: meta.protocol,
        arrival_time_us,
        source_addr,
        byte_count: data.len(),
    }
}

/// The directory that holds the archived packets.
pub open spec fn archive_dir_text() -> Seq<char> {
    "/tmp/hdp"@
}

/// The path of the file that archives a packet that arrived at `arrival_time_us`.
pub open spec fn archive_path(arrival_time_us: u128) -> Seq<char> {
    archive_dir_text() + "/hdp_"@ + decimal(arrival_time_us as nat) + ".bin"@
}

/// The directory that holds the archived packets.
pub fn archive_dir() -> (r: &'static str)
    ensures
        r@ == archive_dir_text(),
{
    "/tmp/hdp"
}

/// The path of the file that archives a packet that arrived at
/// `arrival_time_us`: `/tmp/hdp/hdp_<microseconds>.bin`.
pub fn archive_file_path(arrival_time_us: u128) -> (r: String)
    ensures
        r@ == archive_path(arrival_time_us),
{
    let mut s = String::from_str(archive_dir());
    s.append("/hdp_");
    push_decimal(&mut s, arrival_time_us);
    s.append(".bin");
    assert(s@ =~= archive_path(arrival_time_us));
    s
}

/// Packets that arrive at distinct microseconds are archived in distinct files.
pub proof fn lemma_archive_paths_distinct(t1: u128, t2: u128)
    requires
        t1 != t2,
    ensures
        archive_path(t1) != archive_path(t2),
{
    reveal_strlit("/tmp/hdp");
    reveal_strlit("/hdp_");
    reveal_strlit(".bin");
    if archive_path(t1) == archive_path(t2) {
        let p1 = archive_path(t1);
        let p2 = archive_path(t2);
        let d1 = decimal(t1 as nat);
        let d2 = decimal(t2 as nat);
        assert(p1.len() == p2.len());
        assert(d1.len() == d2.len());
        assert(p1.subrange(13, 13 + d1.len() as int) =~= d1);
        assert(p2.subrange(13, 13 + d2.len() as int) =~= d2);
        lemma_decimal_injective(t1 as nat, t2 as nat);
    }
}

} // verus!
