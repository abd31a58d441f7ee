use synwatch::decode::decode;
use synwatch::error::DecodeError;
use synwatch::pcap::{
    EmptyHeader, Event, ICMPEcho, ICMPHeader, ICMPHeaderType, IPHeader, ProtoHeader, TCPHeader,
};

fn ip_bytes(protocol: u8, total_length: u16) -> Vec<u8> {
    let mut bytes: Vec<u8> = vec![0x45, 0x00];
    bytes.extend_from_slice(&total_length.to_be_bytes());
    bytes.extend_from_slice(&[0x00, 0x01, 0x00, 0x00, 0x40, protocol, 0x00, 0x00]);
    bytes.extend_from_slice(&[10, 0, 0, 1]);
    bytes.extend_from_slice(&[10, 0, 0, 2]);
    bytes
}

fn ip_header(protocol: u8, total_length: u16) -> IPHeader {
    IPHeader {
        ihl_version: 0x45,
        tos: 0,
        total_length,
        id: 1,
        frag_off: 0,
        ttl: 64,
        protocol,
        check: 0,
        source_addr: 0x0A00_0001,
        destination_addr: 0x0A00_0002,
    }
}

fn tcp_bytes(flags: u8) -> Vec<u8> {
    vec![0x1F, 0x90, 0x00, 0x50, 0, 0, 0, 1, 0, 0, 0, 2, 0x50, flags, 0x20, 0x00, 0xAB, 0xCD, 0, 0]
}

#[test]
fn decode_tcp() {
    let mut bytes = ip_bytes(6, 40);
    bytes.extend_from_slice(&tcp_bytes(0x02));
    assert_eq!(
        decode(&bytes),
        Ok(Event {
            ip: ip_header(6, 40),
            proto: ProtoHeader::TCP(TCPHeader {
                source_port: 8080,
                dest_port: 80,
                seq: 1,
                ack_seq: 2,
                res: 0x50,
                flags: 0x02,
                window: 0x2000,
                check: 0xABCD,
                urg_ptr: 0,
            }),
        })
    );
}

#[test]
fn decode_tcp_ignores_what_follows_the_header() {
    let mut bytes = ip_bytes(6, 45);
    bytes.extend_from_slice(&tcp_bytes(0x12));
    let short = decode(&bytes);
    bytes.extend_from_slice(&[1, 2, 3, 4, 5]);
    assert_eq!(decode(&bytes), short);
    assert!(short.is_ok());
}

#[test]
fn decode_needs_the_whole_ip_header() {
    let bytes = ip_bytes(17, 20);
    assert_eq!(decode(&bytes[..19]), Err(DecodeError::TruncatedHeader));
    assert_eq!(decode(&[]), Err(DecodeError::TruncatedHeader));
    assert!(decode(&bytes).is_ok());
}

#[test]
fn decode_needs_the_whole_tcp_header() {
    let mut bytes = ip_bytes(6, 40);
    bytes.extend_from_slice(&tcp_bytes(0x02));
    assert_eq!(decode(&bytes[..39]), Err(DecodeError::TruncatedHeader));
    assert_eq!(decode(&bytes[..20]), Err(DecodeError::TruncatedHeader));
    assert!(decode(&bytes[..40]).is_ok());
}

#[test]
fn decode_needs_the_fixed_icmp_header() {
    let mut bytes = ip_bytes(1, 28);
    bytes.extend_from_slice(&[8, 0, 0x11, 0x22, 0, 5, 0, 6]);
    assert_eq!(decode(&bytes[..23]), Err(DecodeError::TruncatedHeader));
    assert_eq!(
        decode(&bytes[..24]),
        Ok(Event {
            ip: ip_header(1, 28),
            proto: ProtoHeader::ICMP(ICMPHeader {
                header_type: 8,
                code: 0,
                checksum: 0x1122,
                rest: ICMPHeaderType::Unused,
            }),
        })
    );
    assert_eq!(
        decode(&bytes),
        Ok(Event {
            ip: ip_header(1, 28),
            proto: ProtoHeader::ICMP(ICMPHeader {
                header_type: 8,
                code: 0,
                checksum: 0x1122,
                rest: ICMPHeaderType::Echo(ICMPEcho { echo_id: 5, echo_sequence: 6 }),
            }),
        })
    );
}

#[test]
fn decode_leaves_other_protocols_alone() {
    let mut bytes = ip_bytes(17, 28);
    assert_eq!(
        decode(&bytes),
        Ok(Event { ip: ip_header(17, 28), proto: ProtoHeader::Empty(EmptyHeader {}) })
    );
    bytes.extend_from_slice(&[0x00, 0x35, 0x00, 0x35, 0x00, 0x08, 0x00, 0x00]);
    assert_eq!(
        decode(&bytes),
        Ok(Event { ip: ip_header(17, 28), proto: ProtoHeader::Empty(EmptyHeader {}) })
    );
}

#[test]
fn decode_tags_by_protocol() {
    for protocol in 0..=255u8 {
        let mut bytes = ip_bytes(protocol, 60);
        bytes.extend_from_slice(&[0x02; 40]);
        let event = decode(&bytes).unwrap();
        match event.proto {
            ProtoHeader::TCP(_) => assert_eq!(protocol, 6),
            ProtoHeader::ICMP(_) => assert_eq!(protocol, 1),
            ProtoHeader::Empty(_) => assert!(protocol != 6 && protocol != 1),
        }
    }
}

#[test]
fn decode_does_not_use_the_header_length_field() {
    // A header that announces options: the TCP header is still read at octet 20.
    let mut bytes = ip_bytes(6, 44);
    bytes[0] = 0x46;
    bytes.extend_from_slice(&tcp_bytes(0x10));
    bytes.extend_from_slice(&[0, 0, 0, 0]);
    let event = decode(&bytes).unwrap();
    assert_eq!(event.ip.ihl_version, 0x46);
    match event.proto {
        ProtoHeader::TCP(tcp) => {
            assert_eq!(tcp.source_port, 8080);
            assert_eq!(tcp.flags, 0x10);
        },
        _ => panic!("a TCP header was expected"),
    }
}
