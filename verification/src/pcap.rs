//! Capture-file records and the network headers decoded from them.
//!
//! Every type here is plain data. The headers of the capture file are read in
//! the byte order that the file's magic number announces; the IPv4, TCP and
//! ICMP headers are read in network byte order.

use vstd::prelude::*;
use crate::endian::{read_u16, read_u32, u16_at, u32_at};

verus! {

/// The magic number of a classic capture file, as its writer stored it.
pub const MAGIC: u32 = 0xA1B2_C3D4;

/// The same magic number seen from a reader of the opposite byte order.
pub const MAGIC_SWAPPED: u32 = 0xD4C3_B2A1;

/// The link-layer type of Ethernet captures.
pub const LINKTYPE_ETHERNET: u32 = 1;

/// Length of the global header of a capture file.
pub const SIZE_FILE_HEADER: usize = 24;

/// Length of the header that precedes each captured frame.
pub const SIZE_PACKET_HEADER: usize = 16;

/// Length of the Ethernet header in front of the network-layer payload.
pub const SIZE_LINK_HEADER: usize = 14;

/// Length of an IPv4 header without options.
pub const SIZE_IP_HEADER: usize = 20;

/// Length of a TCP header without options.
pub const SIZE_TCP_HEADER: usize = 20;

/// Length of the fixed part of an ICMP header.
pub const SIZE_ICMP_HEADER: usize = 4;

/// The Ethernet type of IPv4.
pub const ETHERTYPE_IPV4: u16 = 0x0800;

/// The IPv4 protocol number of ICMP.
pub const PROTOCOL_ICMP: u8 = 1;

/// The IPv4 protocol number of TCP.
pub const PROTOCOL_TCP: u8 = 6;

/// The TCP flags octet of a segment that carries SYN and nothing else.
pub const FLAGS_SYN: u8 = 0x02;

/// The TCP flags octet of a segment that carries SYN and ACK and nothing else.
pub const FLAGS_SYN_ACK: u8 = 0x12;

/// The global header of a capture file.
///
/// `magic` is kept as a little-endian reader sees it, so it tells the byte
/// order of the file; the other fields are already in the file's byte order.
#[derive(Clone, Copy, Debug, PartialEq, Eq, Structural)]
pub struct FileHeader {
    pub magic: u32,
    pub version_major: u16,
    pub version_minor: u16,
    pub thiszone: u32,
    pub sigfigs: u32,
    pub snap_len: u32,
    pub linktype: u32,
}

impl FileHeader {
    /// Whether `magic` is one of the two forms of the classic magic number.
    pub open spec fn magic_recognized(magic: u32) -> bool {
        magic == MAGIC || magic == MAGIC_SWAPPED
    }

    /// The header that the first 24 octets of `s` hold, when the multi-octet
    /// fields after the magic number are in the given byte order.
    pub open spec fn layout(s: Seq<u8>, big_endian: bool) -> FileHeader {
        FileHeader {
            magic: u32_at(s, 0, false),
            version_major: u16_at(s, 4, big_endian),
            version_minor: u16_at(s, 6, big_endian),
            thiszone: u32_at(s, 8, big_endian),
            sigfigs: u32_at(s, 12, big_endian),
            snap_len: u32_at(s, 16, big_endian),
            linktype: u32_at(s, 20, big_endian),
        }
    }

    /// What `parse` returns on `s`.
    pub open spec fn parsed(s: Seq<u8>) -> Option<FileHeader> {
        if s.len() < SIZE_FILE_HEADER {
            None
        } else {
            Some(Self::layout(s, u32_at(s, 0, false) == MAGIC_SWAPPED))
        }
    }

    /// Whether the file was written in big-endian byte order.
    pub open spec fn big_endian(self) -> bool {
        self.magic == MAGIC_SWAPPED
    }

    /// Reads the global header from the start of `bytes`.
    ///
    /// Fails only when fewer than 24 octets are there. The byte order of the
    /// fields follows the magic number; an unrecognized magic number is read
    /// as a little-endian file and left for the caller to reject.
    pub fn parse(bytes: &[u8]) -> (r: Option<FileHeader>)
        ensures
            r == Self::parsed(bytes@),
    {
        if bytes.len() < SIZE_FILE_HEADER {
            return None;
        }
        let magic: u32 = read_u32(bytes, 0, false);
        let big_endian: bool = magic == MAGIC_SWAPPED;
        Some(
            FileHeader {
                magic,
                version_major: read_u16(bytes, 4, big_endian),
                version_minor: read_u16(bytes, 6, big_endian),
                thiszone: read_u32(bytes, 8, big_endian),
                sigfigs: read_u32(bytes, 12, big_endian),
                snap_len: read_u32(bytes, 16, big_endian),
                linktype: read_u32(bytes, 20, big_endian),
            },
        )
    }

    /// Whether the magic number is recognized.
    pub fn has_valid_magic(&self) -> (r: bool)
        ensures
            r == Self::magic_recognized(self.magic),
    {
        self.magic == MAGIC || self.magic == MAGIC_SWAPPED
    }

    /// Whether the file was written in big-endian byte order.
    pub fn is_big_endian(&self) -> (r: bool)
        ensures
            r == self.big_endian(),
    {
        self.magic == MAGIC_SWAPPED
    }
}

/// A capture timestamp: whole seconds and the microseconds within the second.
#[derive(Clone, Copy, Debug, PartialEq, Eq, Structural)]
pub struct TimeValue {
    pub sec: u32,
    pub usec: u32,
}

impl TimeValue {
    /// The timestamp in microseconds, as a mathematical integer.
    pub open spec fn micros(self) -> int {
        self.sec as int * 1_000_000 + self.usec as int
    }

    /// The timestamp in microseconds.
    pub fn as_usec(&self) -> (r: i64)
        ensures
            r as int == self.micros(),
    {
        (self.sec as i64) * 1_000_000 + (self.usec as i64)
    }
}

impl Default for TimeValue {
    fn default() -> (r: Self)
        ensures
            r == (TimeValue { sec: 0, usec: 0 }),
    {
        TimeValue { sec: 0, usec: 0 }
    }
}

/// The header in front of each captured frame.
#[derive(Clone, Copy, Debug, PartialEq, Eq, Structural)]
pub struct PacketHeader {
    pub timestamp: TimeValue,
    /// Number of octets of the frame that the file holds.
    pub caplen: u32,
    /// Number of octets the frame had on the wire.
    pub len: u32,
}

impl PacketHeader {
    /// The header that the first 16 octets of `s` hold.
    pub open spec fn layout(s: Seq<u8>, big_endian: bool) -> PacketHeader {
        PacketHeader {
            timestamp: TimeValue { sec: u32_at(s, 0, big_endian), usec: u32_at(s, 4, big_endian) },
            caplen: u32_at(s, 8, big_endian),
            len: u32_at(s, 12, big_endian),
        }
    }

    /// What `parse` returns on `s`.
    pub open spec fn parsed(s: Seq<u8>, big_endian: bool) -> Option<PacketHeader> {
        if s.len() < SIZE_PACKET_HEADER {
            None
        } else {
            Some(Self::layout(s, big_endian))
        }
    }

    /// Reads a frame header from the start of `bytes`; fails only when fewer
    /// than 16 octets are there.
    pub fn parse(bytes: &[u8], big_endian: bool) -> (r: Option<PacketHeader>)
        ensures
            r == Self::parsed(bytes@, big_endian),
    {
        if bytes.len() < SIZE_PACKET_HEADER {
            return None;
        }
        Some(
            PacketHeader {
                timestamp: TimeValue {
                    sec: read_u32(bytes, 0, big_endian),
                    usec: read_u32(bytes, 4, big_endian),
                },
                caplen: read_u32(bytes, 8, big_endian),
                len: read_u32(bytes, 12, big_endian),
            },
        )
    }
}

impl Default for PacketHeader {
    fn default() -> (r: Self)
        ensures
            r == (PacketHeader { timestamp: TimeValue { sec: 0, usec: 0 }, caplen: 0, len: 0 }),
    {
        PacketHeader { timestamp: TimeValue { sec: 0, usec: 0 }, caplen: 0, len: 0 }
    }
}

/// An IPv4 header without options.
#[derive(Clone, Copy, Debug, PartialEq, Eq, Structural)]
pub struct IPHeader {
    pub ihl_version: u8,
    pub tos: u8,
    pub total_length: u16,
    pub id: u16,
    pub frag_off: u16,
    pub ttl: u8,
    pub protocol: u8,
    pub check: u16,
    pub source_addr: u32,
    pub destination_addr: u32,
}

impl IPHeader {
    /// The header that the first 20 octets of `s` hold.
    pub open spec fn layout(s: Seq<u8>) -> IPHeader {
        IPHeader {
            ihl_version: s[0],
            tos: s[1],
            total_length: u16_at(s, 2, true),
            id: u16_at(s, 4, true),
            frag_off: u16_at(s, 6, true),
            ttl: s[8],
            protocol: s[9],
            check: u16_at(s, 10, true),
            source_addr: u32_at(s, 12, true),
            destination_addr: u32_at(s, 16, true),
        }
    }

    /// What `parse` returns on `s`.
    pub open spec fn parsed(s: Seq<u8>) -> Option<IPHeader> {
        if s.len() < SIZE_IP_HEADER {
            None
        } else {
            Some(Self::layout(s))
        }
    }

    /// Reads an IPv4 header from the start of `bytes`; fails only when fewer
    /// than 20 octets are there. Options are neither skipped nor checked.
    pub fn parse(bytes: &[u8]) -> (r: Option<IPHeader>)
        ensures
            r == Self::parsed(bytes@),
    {
        if bytes.len() < SIZE_IP_HEADER {
            return None;
        }
        Some(
            IPHeader {
                ihl_version: bytes[0],
                tos: bytes[1],
                total_length: read_u16(bytes, 2, true),
                id: read_u16(bytes, 4, true),
                frag_off: read_u16(bytes, 6, true),
                ttl: bytes[8],
                protocol: bytes[9],
                check: read_u16(bytes, 10, true),
                source_addr: read_u32(bytes, 12, true),
                destination_addr: read_u32(bytes, 16, true),
            },
        )
    }
}

impl Default for IPHeader {
    fn default() -> (r: Self)
        ensures
            r == (IPHeader {
                ihl_version: 0,
                tos: 0,
                total_length: 0,
                id: 0,
                frag_off: 0,
                ttl: 0,
                protocol: 0,
                check: 0,
                source_addr: 0,
                destination_addr: 0,
            }),
    {
        IPHeader {
            ihl_version: 0,
            tos: 0,
            total_length: 0,
            id: 0,
            frag_off: 0,
            ttl: 0,
            protocol: 0,
            check: 0,
            source_addr: 0,
            destination_addr: 0,
        }
    }
}

/// Identifier and sequence number of an ICMP echo request or reply.
#[derive(Clone, Copy, Debug, PartialEq, Eq, Structural)]
pub struct ICMPEcho {
    pub echo_id: u16,
    pub echo_sequence: u16,
}

impl Default for ICMPEcho {
    fn default() -> (r: Self)
        ensures
            r == (ICMPEcho { echo_id: 0, echo_sequence: 0 }),
    {
        ICMPEcho { echo_id: 0, echo_sequence: 0 }
    }
}

/// The path-MTU fields of an ICMP "fragmentation needed" message.
#[derive(Clone, Copy, Debug, PartialEq, Eq, Structural)]
pub struct ICMPFrag {
    pub frag_reserved: u16,
    pub frag_mtu: u16,
}

impl Default for ICMPFrag {
    fn default() -> (r: Self)
        ensures
            r == (ICMPFrag { frag_reserved: 0, frag_mtu: 0 }),
    {
        ICMPFrag { frag_reserved: 0, frag_mtu: 0 }
    }
}

/// ICMP message type of an echo reply.
pub const ICMP_ECHO_REPLY: u8 = 0;

/// ICMP message type of "destination unreachable".
pub const ICMP_DEST_UNREACHABLE: u8 = 3;

/// ICMP message type of a redirect.
pub const ICMP_REDIRECT: u8 = 5;

/// ICMP message type of an echo request.
pub const ICMP_ECHO: u8 = 8;

/// Code of "fragmentation needed" under "destination unreachable".
pub const ICMP_FRAG_NEEDED: u8 = 4;

/// The four octets after the fixed ICMP header, read as the message type asks.
#[derive(Clone, Copy, Debug, PartialEq, Eq, Structural)]
pub enum ICMPHeaderType {
    /// An echo request or reply.
    Echo(ICMPEcho),
    /// The gateway address of a redirect.
    Gateway(u32),
    /// A "fragmentation needed" message.
    Frag(ICMPFrag),
    /// The message type gives the octets no meaning, or the capture ends
    /// before them.
    Unused,
}

impl ICMPHeaderType {
    /// The reading of octets 4 to 8 of the ICMP message `s` for a message of
    /// the given type and code.
    pub open spec fn layout(header_type: u8, code: u8, s: Seq<u8>) -> ICMPHeaderType {
        if s.len() < SIZE_ICMP_HEADER + 4 {
            ICMPHeaderType::Unused
        } else if header_type == ICMP_ECHO || header_type == ICMP_ECHO_REPLY {
            ICMPHeaderType::Echo(
                ICMPEcho { echo_id: u16_at(s, 4, true), echo_sequence: u16_at(s, 6, true) },
            )
        } else if header_type == ICMP_REDIRECT {
            ICMPHeaderType::Gateway(u32_at(s, 4, true))
        } else if header_type == ICMP_DEST_UNREACHABLE && code == ICMP_FRAG_NEEDED {
            ICMPHeaderType::Frag(
                ICMPFrag { frag_reserved: u16_at(s, 4, true), frag_mtu: u16_at(s, 6, true) },
            )
        } else {
            ICMPHeaderType::Unused
        }
    }
}

/// An ICMP header: the fixed four octets and the type-dependent rest.
#[derive(Clone, Copy, Debug, PartialEq, Eq, Structural)]
pub struct ICMPHeader {
    pub header_type: u8,
    pub code: u8,
    pub checksum: u16,
    pub rest: ICMPHeaderType,
}

impl ICMPHeader {
    /// The header that the ICMP message `s` starts with.
    pub open spec fn layout(s: Seq<u8>) -> ICMPHeader {
        ICMPHeader {
            header_type: s[0],
            code: s[1],
            checksum: u16_at(s, 2, true),
            rest: ICMPHeaderType::layout(s[0], s[1], s),
        }
    }

    /// What `parse` returns on `s`.
    pub open spec fn parsed(s: Seq<u8>) -> Option<ICMPHeader> {
        if s.len() < SIZE_ICMP_HEADER {
            None
        } else {
            Some(Self::layout(s))
        }
    }

    /// Reads an ICMP header from the start of `bytes`; fails only when fewer
    /// than 4 octets are there. The type-dependent rest is read only when
    /// its four octets are there too.
    pub fn parse(bytes: &[u8]) -> (r: Option<ICMPHeader>)
        ensures
            r == Self::parsed(bytes@),
    {
        if bytes.len() < SIZE_ICMP_HEADER {
            return None;
        }
        let header_type: u8 = bytes[0];
        let code: u8 = bytes[1];
        let rest = if bytes.len() < SIZE_ICMP_HEADER + 4 {
            ICMPHeaderType::Unused
        } else if header_type == ICMP_ECHO || header_type == ICMP_ECHO_REPLY {
            ICMPHeaderType::Echo(
                ICMPEcho {
                    echo_id: read_u16(bytes, 4, true),
                    echo_sequence: read_u16(bytes, 6, true),
                },
            )
        } else if header_type == ICMP_REDIRECT {
            ICMPHeaderType::Gateway(read_u32(bytes, 4, true))
        } else if header_type == ICMP_DEST_UNREACHABLE && code == ICMP_FRAG_NEEDED {
            ICMPHeaderType::Frag(
                ICMPFrag {
                    frag_reserved: read_u16(bytes, 4, true),
                    frag_mtu: read_u16(bytes, 6, true),
                },
            )
        } else {
            ICMPHeaderType::Unused
        };
        Some(ICMPHeader { header_type, code, checksum: read_u16(bytes, 2, true), rest })
    }
}

impl Default for ICMPHeader {
    fn default() -> (r: Self)
        ensures
            r == (ICMPHeader {
                header_type: 0,
                code: 0,
                checksum: 0,
                rest: ICMPHeaderType::Unused,
            }),
    {
        ICMPHeader { header_type: 0, code: 0, checksum: 0, rest: ICMPHeaderType::Unused }
    }
}

/// A TCP header without options.
#[derive(Clone, Copy, Debug, PartialEq, Eq, Structural)]
pub struct TCPHeader {
    pub source_port: u16,
    pub dest_port: u16,
    pub seq: u32,
    pub ack_seq: u32,
    /// Data offset and reserved bits.
    pub res: u8,
    pub flags: u8,
    pub window: u16,
    pub check: u16,
    pub urg_ptr: u16,
}

impl TCPHeader {
    /// The header that the first 20 octets of `s` hold.
    pub open spec fn layout(s: Seq<u8>) -> TCPHeader {
        TCPHeader {
            source_port: u16_at(s, 0, true),
            dest_port: u16_at(s, 2, true),
            seq: u32_at(s, 4, true),
            ack_seq: u32_at(s, 8, true),
            res: s[12],
            flags: s[13],
            window: u16_at(s, 14, true),
            check: u16_at(s, 16, true),
            urg_ptr: u16_at(s, 18, true),
        }
    }

    /// What `parse` returns on `s`.
    pub open spec fn parsed(s: Seq<u8>) -> Option<TCPHeader> {
        if s.len() < SIZE_TCP_HEADER {
            None
        } else {
            Some(Self::layout(s))
        }
    }

    /// Reads a TCP header from the start of `bytes`; fails only when fewer
    /// than 20 octets are there.
    pub fn parse(bytes: &[u8]) -> (r: Option<TCPHeader>)
        ensures
            r == Self::parsed(bytes@),
    {
        if bytes.len() < SIZE_TCP_HEADER {
            return None;
        }
        Some(
            TCPHeader {
                source_port: read_u16(bytes, 0, true),
                dest_port: read_u16(bytes, 2, true),
                seq: read_u32(bytes, 4, true),
                ack_seq: read_u32(bytes, 8, true),
                res: bytes[12],
                flags: bytes[13],
                window: read_u16(bytes, 14, true),
                check: read_u16(bytes, 16, true),
                urg_ptr: read_u16(bytes, 18, true),
            },
        )
    }

    /// Whether the segment carries SYN and no other flag.
    pub fn is_syn(&self) -> (r: bool)
        ensures
            r == (self.flags == FLAGS_SYN),
    {
        self.flags == FLAGS_SYN
    }

    /// Whether the segment carries SYN and ACK and no other flag.
    pub fn is_synack(&self) -> (r: bool)
        ensures
            r == (self.flags == FLAGS_SYN_ACK),
    {
        self.flags == FLAGS_SYN_ACK
    }
}

impl Default for TCPHeader {
    fn default() -> (r: Self)
        ensures
            r == (TCPHeader {
                source_port: 0,
                dest_port: 0,
                seq: 0,
                ack_seq: 0,
                res: 0,
                flags: 0,
                window: 0,
                check: 0,
                urg_ptr: 0,
            }),
    {
        TCPHeader {
            source_port: 0,
            dest_port: 0,
            seq: 0,
            ack_seq: 0,
            res: 0,
            flags: 0,
            window: 0,
            check: 0,
            urg_ptr: 0,
        }
    }
}

/// Stands for a transport header that is not interpreted.
#[derive(Clone, Copy, Debug, PartialEq, Eq, Structural)]
pub struct EmptyHeader {}

impl Default for EmptyHeader {
    fn default() -> (r: Self)
        ensures
            r == (EmptyHeader {}),
    {
        EmptyHeader {}
    }
}

/// What follows the IPv4 header, by the header's protocol field.
#[derive(Clone, Copy, Debug, PartialEq, Eq, Structural)]
pub enum ProtoHeader {
    /// Neither TCP nor ICMP: nothing is interpreted.
    Empty(EmptyHeader),
    /// Protocol 1.
    ICMP(ICMPHeader),
    /// Protocol 6.
    TCP(TCPHeader),
}

/// The decoded network headers of one frame.
#[derive(Clone, Copy, Debug, PartialEq, Eq, Structural)]
pub struct Event {
    pub ip: IPHeader,
    pub proto: ProtoHeader,
}

impl Event {
    /// The variant of `proto` agrees with the protocol field of `ip`.
    pub open spec fn tag_matches_protocol(self) -> bool {
        &&& self.proto is TCP <==> self.ip.protocol == PROTOCOL_TCP
        &&& self.proto is ICMP <==> self.ip.protocol == PROTOCOL_ICMP
    }
}

/// One captured frame: its capture header and its decoded network headers.
#[derive(Clone, Copy, Debug, PartialEq, Eq, Structural)]
pub struct Packet {
    pub header: PacketHeader,
    pub event: Event,
}

impl Packet {
    /// The frame is a TCP segment whose flags octet is exactly `flags`.
    pub open spec fn has_tcp_flags(self, flags: u8) -> bool {
        self.event.proto matches ProtoHeader::TCP(tcp) && tcp.flags == flags
    }

    /// The frame is a TCP segment with SYN and no other flag.
    pub open spec fn syn(self) -> bool {
        self.has_tcp_flags(FLAGS_SYN)
    }

    /// The frame is a TCP segment with SYN and ACK and no other flag.
    pub open spec fn synack(self) -> bool {
        self.has_tcp_flags(FLAGS_SYN_ACK)
    }

    /// Whether the frame is a TCP segment with SYN and no other flag. A frame
    /// that is not TCP is never one, whatever its octets hold.
    pub fn is_syn(&self) -> (r: bool)
        ensures
            r == self.syn(),
    {
        match self.event.proto {
            ProtoHeader::TCP(tcp) => tcp.is_syn(),
            _ => false,
        }
    }

    /// Whether the frame is a TCP segment with SYN and ACK and no other flag.
    /// A frame that is not TCP is never one, whatever its octets hold.
    pub fn is_synack(&self) -> (r: bool)
        ensures
            r == self.synack(),
    {
        match self.event.proto {
            ProtoHeader::TCP(tcp) => tcp.is_synack(),
            _ => false,
        }
    }

    /// The capture time in microseconds.
    pub fn get_time_usec(&self) -> (r: i64)
        ensures
            r as int == self.header.timestamp.micros(),
    {
        self.header.timestamp.as_usec()
    }
}

impl Default for Packet {
    fn default() -> (r: Self)
        ensures
            r.header == (PacketHeader { timestamp: TimeValue { sec: 0, usec: 0 }, caplen: 0, len: 0 }),
            r.event.proto == ProtoHeader::Empty(EmptyHeader {}),
            r.event.ip == (IPHeader {
                ihl_version: 0,
                tos: 0,
                total_length: 0,
                id: 0,
                frag_off: 0,
                ttl: 0,
                protocol: 0,
                check: 0,
                source_addr: 0,
                destination_addr: 0,
            }),
    {
        Packet {
            header: PacketHeader::default(),
            event: Event { ip: IPHeader::default(), proto: ProtoHeader::Empty(EmptyHeader::default()) },
        }
    }
}

} // verus!
