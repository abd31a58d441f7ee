use synwatch::pcap::{
    EmptyHeader, Event, FileHeader, ICMPEcho, ICMPFrag, ICMPHeader, ICMPHeaderType, IPHeader,
    Packet, PacketHeader, ProtoHeader, TCPHeader, TimeValue, MAGIC, MAGIC_SWAPPED,
};

fn tcp_packet(flags: u8) -> Packet {
    let mut packet = Packet::default();
    packet.event.ip.protocol = 6;
    packet.event.proto = ProtoHeader::TCP(TCPHeader { flags, ..TCPHeader::default() });
    packet
}

#[test]
fn as_usec_joins_seconds_and_microseconds() {
    assert_eq!(TimeValue { sec: 0, usec: 0 }.as_usec(), 0);
    assert_eq!(TimeValue { sec: 1, usec: 5 }.as_usec(), 1_000_005);
    assert_eq!(TimeValue { sec: 12, usec: 999_999 }.as_usec(), 12_999_999);
}

#[test]
fn as_usec_takes_the_largest_fields() {
    let t = TimeValue { sec: u32::MAX, usec: u32::MAX };
    assert_eq!(t.as_usec(), 4_294_967_295_000_000 + 4_294_967_295);
}

#[test]
fn as_usec_keeps_microseconds_beyond_a_second() {
    assert_eq!(TimeValue { sec: 2, usec: 1_500_000 }.as_usec(), 3_500_000);
}

#[test]
fn default_time_value_is_zero() {
    assert_eq!(TimeValue::default(), TimeValue { sec: 0, usec: 0 });
}

#[test]
fn default_packet_is_empty() {
    let packet = Packet::default();
    assert_eq!(
        packet.header,
        PacketHeader { timestamp: TimeValue { sec: 0, usec: 0 }, caplen: 0, len: 0 }
    );
    assert_eq!(packet.event.ip, IPHeader::default());
    assert_eq!(packet.event.ip.total_length, 0);
    assert_eq!(packet.event.ip.protocol, 0);
    assert_eq!(packet.event.proto, ProtoHeader::Empty(EmptyHeader {}));
    assert!(!packet.is_syn());
    assert!(!packet.is_synack());
}

#[test]
fn default_headers_are_zero() {
    assert_eq!(TCPHeader::default().flags, 0);
    assert_eq!(TCPHeader::default().seq, 0);
    assert_eq!(ICMPHeader::default().rest, ICMPHeaderType::Unused);
    assert_eq!(ICMPEcho::default(), ICMPEcho { echo_id: 0, echo_sequence: 0 });
    assert_eq!(ICMPFrag::default(), ICMPFrag { frag_reserved: 0, frag_mtu: 0 });
    assert_eq!(EmptyHeader::default(), EmptyHeader {});
}

#[test]
fn syn_is_an_exact_match() {
    assert!(tcp_packet(0x02).is_syn());
    assert!(!tcp_packet(0x12).is_syn());
    assert!(!tcp_packet(0x10).is_syn());
    assert!(!tcp_packet(0x00).is_syn());
    // SYN with ECE and CWR is left out.
    assert!(!tcp_packet(0xC2).is_syn());
    assert!(!tcp_packet(0x42).is_syn());
}

#[test]
fn synack_is_an_exact_match() {
    assert!(tcp_packet(0x12).is_synack());
    assert!(!tcp_packet(0x02).is_synack());
    assert!(!tcp_packet(0x10).is_synack());
    assert!(!tcp_packet(0x52).is_synack());
    assert!(!tcp_packet(0x1A).is_synack());
}

#[test]
fn tcp_header_flag_tests_are_exact() {
    let syn = TCPHeader { flags: 0x02, ..TCPHeader::default() };
    let synack = TCPHeader { flags: 0x12, ..TCPHeader::default() };
    assert!(syn.is_syn() && !syn.is_synack());
    assert!(synack.is_synack() && !synack.is_syn());
}

#[test]
fn flags_are_not_read_from_other_protocols() {
    let mut packet = Packet::default();
    packet.event.ip.protocol = 1;
    packet.event.proto = ProtoHeader::ICMP(ICMPHeader {
        header_type: 0x02,
        code: 0x02,
        checksum: 0x0202,
        rest: ICMPHeaderType::Gateway(0x0202_0202),
    });
    assert!(!packet.is_syn());
    assert!(!packet.is_synack());
    let mut opaque = Packet::default();
    opaque.event.ip.protocol = 17;
    assert!(!opaque.is_syn());
    assert!(!opaque.is_synack());
}

#[test]
fn get_time_usec_is_the_timestamp() {
    let mut packet = Packet::default();
    packet.header.timestamp = TimeValue { sec: 3, usec: 250_000 };
    assert_eq!(packet.get_time_usec(), 3_250_000);
}

#[test]
fn file_header_little_endian() {
    let bytes: Vec<u8> = vec![
        0xD4, 0xC3, 0xB2, 0xA1, 0x02, 0x00, 0x04, 0x00, 0x10, 0x0E, 0x00, 0x00, 0x06, 0x00, 0x00,
        0x00, 0xFF, 0xFF, 0x00, 0x00, 0x01, 0x00, 0x00, 0x00,
    ];
    let header = FileHeader::parse(&bytes).unwrap();
    assert_eq!(
        header,
        FileHeader {
            magic: 2712847316,
            version_major: 2,
            version_minor: 4,
            thiszone: 3600,
            sigfigs: 6,
            snap_len: 65535,
            linktype: 1,
        }
    );
    assert_eq!(header.magic, MAGIC);
    assert!(header.has_valid_magic());
    assert!(!header.is_big_endian());
}

#[test]
fn file_header_big_endian() {
    let bytes: Vec<u8> = vec![
        0xA1, 0xB2, 0xC3, 0xD4, 0x00, 0x02, 0x00, 0x04, 0x00, 0x00, 0x0E, 0x10, 0x00, 0x00, 0x00,
        0x06, 0x00, 0x00, 0xFF, 0xFF, 0x00, 0x00, 0x00, 0x01,
    ];
    let header = FileHeader::parse(&bytes).unwrap();
    assert_eq!(
        header,
        FileHeader {
            magic: MAGIC_SWAPPED,
            version_major: 2,
            version_minor: 4,
            thiszone: 3600,
            sigfigs: 6,
            snap_len: 65535,
            linktype: 1,
        }
    );
    assert!(header.has_valid_magic());
    assert!(header.is_big_endian());
}

#[test]
fn file_header_needs_all_its_octets() {
    let bytes: Vec<u8> = vec![0xD4, 0xC3, 0xB2, 0xA1, 2, 0, 4, 0, 0, 0, 0, 0, 0, 0, 0, 0, 0, 0, 0, 0, 1, 0, 0];
    assert_eq!(bytes.len(), 23);
    assert_eq!(FileHeader::parse(&bytes), None);
    assert_eq!(FileHeader::parse(&[]), None);
}

#[test]
fn file_header_with_another_magic_is_read_but_not_valid() {
    let mut bytes: Vec<u8> = vec![0; 24];
    bytes[0] = 0x4D;
    bytes[1] = 0x3C;
    bytes[2] = 0xB2;
    bytes[3] = 0xA1;
    bytes[20] = 1;
    let header = FileHeader::parse(&bytes).unwrap();
    assert_eq!(header.magic, 0xA1B2_3C4D);
    assert!(!header.has_valid_magic());
    assert_eq!(header.linktype, 1);
}

#[test]
fn packet_header_in_both_byte_orders() {
    let le: Vec<u8> = vec![
        0x78, 0x56, 0x34, 0x12, 0x40, 0xE2, 0x01, 0x00, 0x3C, 0x00, 0x00, 0x00, 0xEA, 0x05, 0x00,
        0x00,
    ];
    let be: Vec<u8> = vec![
        0x12, 0x34, 0x56, 0x78, 0x00, 0x01, 0xE2, 0x40, 0x00, 0x00, 0x00, 0x3C, 0x00, 0x00, 0x05,
        0xEA,
    ];
    let expected = PacketHeader {
        timestamp: TimeValue { sec: 0x1234_5678, usec: 123_456 },
        caplen: 60,
        len: 1514,
    };
    assert_eq!(PacketHeader::parse(&le, false), Some(expected));
    assert_eq!(PacketHeader::parse(&be, true), Some(expected));
    assert_ne!(PacketHeader::parse(&le, true), Some(expected));
    assert_eq!(PacketHeader::parse(&le[..15], false), None);
}

#[test]
fn ip_header_fields() {
    let bytes: Vec<u8> = vec![
        0x45, 0x10, 0x00, 0x28, 0xAB, 0xCD, 0x40, 0x00, 0x40, 0x06, 0x12, 0x34, 192, 168, 1, 2,
        10, 0, 0, 7,
    ];
    assert_eq!(
        IPHeader::parse(&bytes),
        Some(IPHeader {
            ihl_version: 0x45,
            tos: 0x10,
            total_length: 40,
            id: 0xABCD,
            frag_off: 0x4000,
            ttl: 64,
            protocol: 6,
            check: 0x1234,
            source_addr: 0xC0A8_0102,
            destination_addr: 0x0A00_0007,
        })
    );
    assert_eq!(IPHeader::parse(&bytes[..19]), None);
}

#[test]
fn tcp_header_fields() {
    let bytes: Vec<u8> = vec![
        0x04, 0xD2, 0x00, 0x50, 0x01, 0x02, 0x03, 0x04, 0xA1, 0xA2, 0xA3, 0xA4, 0x50, 0x12, 0x72,
        0x10, 0xBE, 0xEF, 0x00, 0x07, 0xFF,
    ];
    assert_eq!(
        TCPHeader::parse(&bytes),
        Some(TCPHeader {
            source_port: 1234,
            dest_port: 80,
            seq: 0x0102_0304,
            ack_seq: 0xA1A2_A3A4,
            res: 0x50,
            flags: 0x12,
            window: 0x7210,
            check: 0xBEEF,
            urg_ptr: 7,
        })
    );
    assert_eq!(TCPHeader::parse(&bytes[..19]), None);
}

#[test]
fn icmp_echo_fields() {
    let request: Vec<u8> = vec![8, 0, 0xF7, 0xFF, 0x12, 0x34, 0x00, 0x09];
    assert_eq!(
        ICMPHeader::parse(&request),
        Some(ICMPHeader {
            header_type: 8,
            code: 0,
            checksum: 0xF7FF,
            rest: ICMPHeaderType::Echo(ICMPEcho { echo_id: 0x1234, echo_sequence: 9 }),
        })
    );
    let reply: Vec<u8> = vec![0, 0, 0xFF, 0xFF, 0x00, 0x01, 0x01, 0x00, 0xAA];
    assert_eq!(
        ICMPHeader::parse(&reply).unwrap().rest,
        ICMPHeaderType::Echo(ICMPEcho { echo_id: 1, echo_sequence: 256 })
    );
}

#[test]
fn icmp_redirect_and_fragmentation_fields() {
    let redirect: Vec<u8> = vec![5, 1, 0, 0, 10, 0, 0, 1];
    assert_eq!(ICMPHeader::parse(&redirect).unwrap().rest, ICMPHeaderType::Gateway(0x0A00_0001));
    let frag: Vec<u8> = vec![3, 4, 0, 0, 0, 0, 0x05, 0xDC];
    assert_eq!(
        ICMPHeader::parse(&frag).unwrap().rest,
        ICMPHeaderType::Frag(ICMPFrag { frag_reserved: 0, frag_mtu: 1500 })
    );
    let unreachable: Vec<u8> = vec![3, 1, 0, 0, 0, 0, 0x05, 0xDC];
    assert_eq!(ICMPHeader::parse(&unreachable).unwrap().rest, ICMPHeaderType::Unused);
    let time_exceeded: Vec<u8> = vec![11, 0, 0, 0, 1, 2, 3, 4];
    assert_eq!(ICMPHeader::parse(&time_exceeded).unwrap().rest, ICMPHeaderType::Unused);
}

#[test]
fn icmp_header_without_its_rest() {
    let bytes: Vec<u8> = vec![8, 0, 0x12, 0x34, 0xAA, 0xBB, 0xCC];
    assert_eq!(
        ICMPHeader::parse(&bytes),
        Some(ICMPHeader { header_type: 8, code: 0, checksum: 0x1234, rest: ICMPHeaderType::Unused })
    );
    assert_eq!(
        ICMPHeader::parse(&bytes[..4]),
        Some(ICMPHeader { header_type: 8, code: 0, checksum: 0x1234, rest: ICMPHeaderType::Unused })
    );
    assert_eq!(ICMPHeader::parse(&bytes[..3]), None);
}

#[test]
fn event_holds_both_headers() {
    let event = Event { ip: IPHeader::default(), proto: ProtoHeader::Empty(EmptyHeader {}) };
    let copy = event;
    assert_eq!(event, copy);
}
