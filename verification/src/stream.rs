//! The records of a trace as a stream of octets.
//!
//! A record is a 16-octet frame header followed by as many octets of the
//! frame as were captured: the 14-octet Ethernet header and the network-layer
//! payload. This module says what a stream of records hands out, frame by
//! frame: IPv4 frames decoded, frames of other Ethernet types passed over,
//! and failures for the frames that cannot be used.

use vstd::prelude::*;
use crate::decode::decoded;
use crate::endian::u16_at;
use crate::error::FrameError;
use crate::pcap::{
    Packet, PacketHeader, ETHERTYPE_IPV4, SIZE_IP_HEADER, SIZE_LINK_HEADER, SIZE_PACKET_HEADER,
};

verus! {

/// Offset of the Ethernet type within a record.
pub const OFFSET_ETHERTYPE: usize = 28;

/// Offset of the network-layer payload within a record.
pub const OFFSET_PAYLOAD: usize = 30;

/// What the head of a stream of records turns out to be.
#[derive(Clone, Copy, Debug, PartialEq, Eq)]
pub enum Step {
    /// The stream ends before the record does, or is empty.
    End,
    /// A whole frame of an Ethernet type other than IPv4.
    Filtered,
    /// A frame that is handed out, decoded or as a failure.
    Frame(Result<Packet, FrameError>),
}

/// The head of the stream `s` and the number of octets it takes up.
///
/// `s` starts at a frame header. What the head is, is decided in this order:
/// - fewer than 16 octets: the end of the trace;
/// - a captured length below 14: a malformed frame, which takes the frame
///   header and the octets that it declares, as far as the stream holds them;
/// - fewer than 14 octets behind the frame header: the end of the trace;
/// - a payload of more than `max` octets: an oversized frame, which takes
///   the whole record where the stream holds it, and all that is left where
///   it does not;
/// - a record that the stream does not hold to its end: the end of the trace;
/// - an Ethernet type other than IPv4: a filtered frame;
/// - otherwise the frame with its payload decoded, or the failure to decode
///   it.
///
/// A filtered frame and a frame that was decoded or failed to decode take
/// the whole record. The end of the trace takes nothing.
#[verifier::opaque]
pub open spec fn step(s: Seq<u8>, big_endian: bool, max: nat) -> (Step, nat) {
    if s.len() < SIZE_PACKET_HEADER {
        (Step::End, 0)
    } else {
        let header = PacketHeader::layout(s, big_endian);
        let caplen = header.caplen as nat;
        let avail = (s.len() - SIZE_PACKET_HEADER) as nat;
        let held = if caplen <= avail {
            caplen
        } else {
            avail
        };
        if caplen < SIZE_LINK_HEADER {
            (Step::Frame(Err(FrameError::MalformedFrame)), SIZE_PACKET_HEADER as nat + held)
        } else if avail < SIZE_LINK_HEADER {
            (Step::End, 0)
        } else if caplen - SIZE_LINK_HEADER > max {
            (Step::Frame(Err(FrameError::OversizedFrame)), SIZE_PACKET_HEADER as nat + held)
        } else if avail < caplen {
            (Step::End, 0)
        } else if u16_at(s, OFFSET_ETHERTYPE as int, true) != ETHERTYPE_IPV4 {
            (Step::Filtered, SIZE_PACKET_HEADER as nat + caplen)
        } else {
            let payload = s.subrange(OFFSET_PAYLOAD as int, SIZE_PACKET_HEADER + caplen);
            let item = match decoded(payload) {
                Ok(event) => Ok(Packet { header, event }),
                Err(e) => Err(FrameError::of_decode(e)),
            };
            (Step::Frame(item), SIZE_PACKET_HEADER as nat + caplen)
        }
    }
}

/// The head of a stream takes no more octets than the stream holds: none at
/// the end of the trace, and a frame header at least everywhere else.
pub proof fn lemma_step_takes(s: Seq<u8>, big_endian: bool, max: nat)
    ensures
        step(s, big_endian, max).1 <= s.len(),
        step(s, big_endian, max).0 is End ==> step(s, big_endian, max).1 == 0,
        !(step(s, big_endian, max).0 is End) ==> step(s, big_endian, max).1 >= SIZE_PACKET_HEADER,
{
    reveal(step);
}

/// The first frame that the stream `s` hands out, if any, and the number of
/// octets up to its end. When there is none, the octets are those of the
/// filtered frames in front of the end.
pub open spec fn next_frame(s: Seq<u8>, big_endian: bool, max: nat) -> (
    Option<Result<Packet, FrameError>>,
    nat,
)
    decreases s.len(),
    via next_frame_terminates
{
    let (head, used) = step(s, big_endian, max);
    match head {
        Step::End => (None, 0),
        Step::Frame(item) => (Some(item), used),
        Step::Filtered => {
            let (item, more) = next_frame(s.skip(used as int), big_endian, max);
            (item, used + more)
        },
    }
}

#[via_fn]
proof fn next_frame_terminates(s: Seq<u8>, big_endian: bool, max: nat) {
    lemma_step_takes(s, big_endian, max);
}

/// Every frame that the stream `s` hands out, in order.
pub open spec fn frames(s: Seq<u8>, big_endian: bool, max: nat) -> Seq<Result<Packet, FrameError>>
    decreases s.len(),
    via frames_terminates
{
    let (head, used) = step(s, big_endian, max);
    match head {
        Step::End => Seq::empty(),
        Step::Frame(item) => seq![item] + frames(s.skip(used as int), big_endian, max),
        Step::Filtered => frames(s.skip(used as int), big_endian, max),
    }
}

#[via_fn]
proof fn frames_terminates(s: Seq<u8>, big_endian: bool, max: nat) {
    lemma_step_takes(s, big_endian, max);
}

/// What is left of the stream `s` once it has handed out all its frames:
/// the octets from the end of the trace on.
pub open spec fn drained(s: Seq<u8>, big_endian: bool, max: nat) -> Seq<u8>
    decreases s.len(),
    via drained_terminates
{
    let (head, used) = step(s, big_endian, max);
    match head {
        Step::End => s,
        _ => drained(s.skip(used as int), big_endian, max),
    }
}

#[via_fn]
proof fn drained_terminates(s: Seq<u8>, big_endian: bool, max: nat) {
    lemma_step_takes(s, big_endian, max);
}

/// The decoded packets among `items`, in order.
pub open spec fn decoded_of(items: Seq<Result<Packet, FrameError>>) -> Seq<Packet>
    decreases items.len(),
{
    if items.len() == 0 {
        Seq::empty()
    } else {
        match items.last() {
            Ok(packet) => decoded_of(items.drop_last()).push(packet),
            Err(_) => decoded_of(items.drop_last()),
        }
    }
}

/// The number of failures among `items`.
pub open spec fn failures_of(items: Seq<Result<Packet, FrameError>>) -> nat
    decreases items.len(),
{
    if items.len() == 0 {
        0
    } else {
        match items.last() {
            Ok(_) => failures_of(items.drop_last()),
            Err(_) => failures_of(items.drop_last()) + 1,
        }
    }
}

/// The stream hands out a frame only by taking octets, and never takes more
/// than it holds.
pub proof fn lemma_next_frame_takes(s: Seq<u8>, big_endian: bool, max: nat)
    ensures
        next_frame(s, big_endian, max).1 <= s.len(),
        next_frame(s, big_endian, max).0 is Some ==> next_frame(s, big_endian, max).1 > 0,
    decreases s.len(),
{
    let (head, used) = step(s, big_endian, max);
    lemma_step_takes(s, big_endian, max);
    if head is Filtered {
        lemma_next_frame_takes(s.skip(used as int), big_endian, max);
    }
}

/// What a stream hands out is its first frame and then what the stream
/// behind that frame hands out.
pub proof fn lemma_frames_unfold(s: Seq<u8>, big_endian: bool, max: nat)
    ensures
        match next_frame(s, big_endian, max).0 {
            Some(item) => frames(s, big_endian, max) == seq![item] + frames(
                s.skip(next_frame(s, big_endian, max).1 as int),
                big_endian,
                max,
            ),
            None => frames(s, big_endian, max) == Seq::<Result<Packet, FrameError>>::empty(),
        },
    decreases s.len(),
{
    let (head, used) = step(s, big_endian, max);
    lemma_step_takes(s, big_endian, max);
    if head is Filtered {
        let t = s.skip(used as int);
        lemma_frames_unfold(t, big_endian, max);
        let more = next_frame(t, big_endian, max).1;
        lemma_next_frame_takes(t, big_endian, max);
        assert(t.skip(more as int) =~= s.skip((used + more) as int));
    }
}

/// Handing out a frame leaves the end of the trace where it is; when
/// nothing is handed out, the stream is at that end behind the octets passed.
pub proof fn lemma_drained_unfold(s: Seq<u8>, big_endian: bool, max: nat)
    ensures
        match next_frame(s, big_endian, max).0 {
            Some(_) => drained(s, big_endian, max) == drained(
                s.skip(next_frame(s, big_endian, max).1 as int),
                big_endian,
                max,
            ),
            None => drained(s, big_endian, max) == s.skip(
                next_frame(s, big_endian, max).1 as int,
            ),
        },
    decreases s.len(),
{
    let (head, used) = step(s, big_endian, max);
    lemma_step_takes(s, big_endian, max);
    if head is Filtered {
        let t = s.skip(used as int);
        lemma_drained_unfold(t, big_endian, max);
        let more = next_frame(t, big_endian, max).1;
        lemma_next_frame_takes(t, big_endian, max);
        assert(t.skip(more as int) =~= s.skip((used + more) as int));
    }
}

/// A drained stream is at the end of the trace: it hands out nothing, and
/// draining it again changes nothing.
pub proof fn lemma_drained_is_at_end(s: Seq<u8>, big_endian: bool, max: nat)
    ensures
        step(drained(s, big_endian, max), big_endian, max).0 is End,
        next_frame(drained(s, big_endian, max), big_endian, max).0 is None,
        frames(drained(s, big_endian, max), big_endian, max).len() == 0,
        drained(drained(s, big_endian, max), big_endian, max) == drained(s, big_endian, max),
    decreases s.len(),
{
    let (head, used) = step(s, big_endian, max);
    lemma_step_takes(s, big_endian, max);
    if !(head is End) {
        lemma_drained_is_at_end(s.skip(used as int), big_endian, max);
    }
}

/// The octets `record` are one whole record whose payload is within `max`.
pub open spec fn whole_record(record: Seq<u8>, big_endian: bool, max: nat) -> bool {
    &&& record.len() >= OFFSET_PAYLOAD
    &&& record.len() == SIZE_PACKET_HEADER + PacketHeader::layout(record, big_endian).caplen
    &&& record.len() - OFFSET_PAYLOAD <= max
}

/// What the reader makes of the IPv4 frame in the whole record `record`.
pub open spec fn frame_of(record: Seq<u8>, big_endian: bool) -> Result<Packet, FrameError> {
    match decoded(record.skip(OFFSET_PAYLOAD as int)) {
        Ok(event) => Ok(Packet { header: PacketHeader::layout(record, big_endian), event }),
        Err(e) => Err(FrameError::of_decode(e)),
    }
}

/// A whole frame of an Ethernet type other than IPv4 is never handed out,
/// and the frames behind it are read as if it were not there.
pub proof fn lemma_other_ethertype_is_passed_over(
    record: Seq<u8>,
    rest: Seq<u8>,
    big_endian: bool,
    max: nat,
)
    requires
        whole_record(record, big_endian, max),
        u16_at(record, OFFSET_ETHERTYPE as int, true) != ETHERTYPE_IPV4,
    ensures
        frames(record + rest, big_endian, max) == frames(rest, big_endian, max),
{
    let s = record + rest;
    reveal(step);
    assert(s.skip(record.len() as int) =~= rest);
}

/// A whole IPv4 frame is handed out first, decoded from its own octets, and
/// the frames behind it follow in their order.
pub proof fn lemma_ipv4_frame_is_handed_out(
    record: Seq<u8>,
    rest: Seq<u8>,
    big_endian: bool,
    max: nat,
)
    requires
        whole_record(record, big_endian, max),
        u16_at(record, OFFSET_ETHERTYPE as int, true) == ETHERTYPE_IPV4,
    ensures
        frames(record + rest, big_endian, max) == seq![frame_of(record, big_endian)] + frames(
            rest,
            big_endian,
            max,
        ),
        decoded_of(frames(record + rest, big_endian, max)) == decoded_of(
            seq![frame_of(record, big_endian)],
        ) + decoded_of(frames(rest, big_endian, max)),
        frame_of(record, big_endian) matches Ok(packet) ==> decoded_of(
            frames(record + rest, big_endian, max),
        ) == seq![packet] + decoded_of(frames(rest, big_endian, max)),
{
    let s = record + rest;
    let item = frame_of(record, big_endian);
    assert(frames(s, big_endian, max) == seq![item] + frames(rest, big_endian, max)) by {
        reveal(step);
        assert(s.skip(record.len() as int) =~= rest);
    }
    lemma_items_concat(seq![item], frames(rest, big_endian, max));
    assert(seq![item].drop_last() =~= Seq::<Result<Packet, FrameError>>::empty());
    assert(decoded_of(Seq::<Result<Packet, FrameError>>::empty()).len() == 0);
}

/// A frame whose captured length is below that of an Ethernet header is
/// handed out as malformed, and the stream goes on behind the octets that
/// the frame declares.
pub proof fn lemma_short_frame_is_malformed(s: Seq<u8>, big_endian: bool, max: nat)
    requires
        s.len() >= SIZE_PACKET_HEADER,
        PacketHeader::layout(s, big_endian).caplen < SIZE_LINK_HEADER,
    ensures
        next_frame(s, big_endian, max).0 == Some(
            Err::<Packet, FrameError>(FrameError::MalformedFrame),
        ),
        s.len() >= SIZE_PACKET_HEADER + PacketHeader::layout(s, big_endian).caplen
            ==> frames(s, big_endian, max) == seq![
            Err::<Packet, FrameError>(FrameError::MalformedFrame),
        ] + frames(
            s.skip(SIZE_PACKET_HEADER + PacketHeader::layout(s, big_endian).caplen),
            big_endian,
            max,
        ),
{
    reveal(step);
}

/// What holds of every packet that a reader with the limit `max` hands out:
/// the frame held an Ethernet header and an IPv4 header, its payload was
/// within the limit, and the header behind the IPv4 header is the one that
/// the protocol field names.
pub open spec fn accepted(packet: Packet, max: nat) -> bool {
    &&& packet.header.caplen >= SIZE_LINK_HEADER + SIZE_IP_HEADER
    &&& packet.header.caplen - SIZE_LINK_HEADER <= max
    &&& packet.event.tag_matches_protocol()
}

/// A packet at the head of a stream is an accepted one.
pub proof fn lemma_step_accepted(s: Seq<u8>, big_endian: bool, max: nat)
    ensures
        step(s, big_endian, max).0 matches Step::Frame(Ok(packet)) ==> accepted(packet, max),
{
    reveal(step);
}

/// Every packet that a stream hands out is an accepted one.
pub proof fn lemma_frames_accepted(s: Seq<u8>, big_endian: bool, max: nat)
    ensures
        forall|i: int|
            0 <= i < frames(s, big_endian, max).len() ==> (#[trigger] frames(
                s,
                big_endian,
                max,
            )[i] matches Ok(packet) ==> accepted(packet, max)),
    decreases s.len(),
{
    let (head, used) = step(s, big_endian, max);
    lemma_step_takes(s, big_endian, max);
    lemma_step_accepted(s, big_endian, max);
    if !(head is End) {
        lemma_frames_accepted(s.skip(used as int), big_endian, max);
    }
}

/// The packets and the failures of two runs of items, one behind the other,
/// are those of the first run and then those of the second.
pub proof fn lemma_items_concat(
    a: Seq<Result<Packet, FrameError>>,
    b: Seq<Result<Packet, FrameError>>,
)
    ensures
        decoded_of(a + b) == decoded_of(a) + decoded_of(b),
        failures_of(a + b) == failures_of(a) + failures_of(b),
    decreases b.len(),
{
    if b.len() > 0 {
        lemma_items_concat(a, b.drop_last());
        assert((a + b).drop_last() =~= a + b.drop_last());
    }
}

/// Every item is a packet or a failure.
pub proof fn lemma_decoded_or_failed(items: Seq<Result<Packet, FrameError>>)
    ensures
        decoded_of(items).len() + failures_of(items) == items.len(),
    decreases items.len(),
{
    if items.len() > 0 {
        lemma_decoded_or_failed(items.drop_last());
    }
}

} // verus!
