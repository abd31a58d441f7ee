//! Decoding of the network-layer payload of one captured frame.

use vstd::prelude::*;
use vstd::slice::slice_subrange;
use crate::error::DecodeError;
use crate::pcap::{
    EmptyHeader, Event, ICMPHeader, IPHeader, ProtoHeader, TCPHeader, PROTOCOL_ICMP, PROTOCOL_TCP,
    SIZE_ICMP_HEADER, SIZE_IP_HEADER, SIZE_TCP_HEADER,
};

verus! {

/// Number of octets that a payload must hold to be decoded, given the octet
/// of its IPv4 protocol field.
pub open spec fn needed_len(protocol: u8) -> nat {
    if protocol == PROTOCOL_TCP {
        (SIZE_IP_HEADER + SIZE_TCP_HEADER) as nat
    } else if protocol == PROTOCOL_ICMP {
        (SIZE_IP_HEADER + SIZE_ICMP_HEADER) as nat
    } else {
        SIZE_IP_HEADER as nat
    }
}

/// The payload holds every header that it announces.
pub open spec fn decodable(s: Seq<u8>) -> bool {
    s.len() >= SIZE_IP_HEADER && s.len() >= needed_len(s[9])
}

/// The headers of the payload `s`.
pub open spec fn decoded(s: Seq<u8>) -> Result<Event, DecodeError> {
    if !decodable(s) {
        Err(DecodeError::TruncatedHeader)
    } else {
        let ip = IPHeader::layout(s);
        let rest = s.skip(SIZE_IP_HEADER as int);
        let proto = if ip.protocol == PROTOCOL_TCP {
            ProtoHeader::TCP(TCPHeader::layout(rest))
        } else if ip.protocol == PROTOCOL_ICMP {
            ProtoHeader::ICMP(ICMPHeader::layout(rest))
        } else {
            ProtoHeader::Empty(EmptyHeader {  })
        };
        Ok(Event { ip, proto })
    }
}

/// Decodes the IPv4 header at the start of `bytes` and, by its protocol
/// field, the TCP or ICMP header right behind it.
///
/// The IPv4 header is taken to be 20 octets long whatever its length field
/// says. Any protocol other than TCP and ICMP leaves the rest uninterpreted.
/// No octet beyond `bytes` is read: a payload too short for the headers it
/// announces is an error.
pub fn decode(bytes: &[u8]) -> (r: Result<Event, DecodeError>)
    ensures
        r == decoded(bytes@),
        r is Ok <==> decodable(bytes@),
        r matches Ok(event) ==> event.tag_matches_protocol(),
{
    let ip = match IPHeader::parse(bytes) {
        Some(ip) => ip,
        None => {
            return Err(DecodeError::TruncatedHeader);
        },
    };
    let rest = slice_subrange(bytes, SIZE_IP_HEADER, bytes.len());
    let proto = if ip.protocol == PROTOCOL_TCP {
        match TCPHeader::parse(rest) {
            Some(tcp) => ProtoHeader::TCP(tcp),
            None => {
                return Err(DecodeError::TruncatedHeader);
            },
        }
    } else if ip.protocol == PROTOCOL_ICMP {
        match ICMPHeader::parse(rest) {
            Some(message) => ProtoHeader::ICMP(message),
            None => {
                return Err(DecodeError::TruncatedHeader);
            },
        }
    } else {
        ProtoHeader::Empty(EmptyHeader {  })
    };
    Ok(Event { ip, proto })
}

} // verus!
