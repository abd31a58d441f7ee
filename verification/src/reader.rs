//! Reading the frames of a capture file that is held in memory.
//!
//! A trace is the 24-octet global header and then the stream of records. The
//! reader checks the global header once, then walks the records in order
//! without ever losing its place in the stream.

use vstd::prelude::*;
use vstd::slice::slice_subrange;
use crate::decode::decode;
use crate::endian::read_u16;
use crate::error::{FrameError, TraceError};
use crate::pcap::{
    FileHeader, Packet, PacketHeader, ETHERTYPE_IPV4, LINKTYPE_ETHERNET, SIZE_FILE_HEADER,
    SIZE_LINK_HEADER, SIZE_PACKET_HEADER,
};
use crate::stream::{
    accepted, decoded_of, drained, failures_of, frames, lemma_drained_unfold,
    lemma_frames_unfold, lemma_next_frame_takes, lemma_short_frame_is_malformed,
    lemma_step_accepted, next_frame, step, Step, OFFSET_ETHERTYPE, OFFSET_PAYLOAD,
};

verus! {

/// Largest network-layer payload that a reader accepts unless told otherwise:
/// the length of the longest IPv4 datagram.
pub const MAX_FRAME_SIZE: usize = 65535;

/// The reason for which `open` refuses the source `s`, if it does: a source
/// too short for the global header, then a magic number that is not
/// recognized, then a link-layer type other than Ethernet.
pub open spec fn open_error(s: Seq<u8>) -> Option<TraceError> {
    match FileHeader::parsed(s) {
        None => Some(TraceError::TruncatedHeader),
        Some(header) => if !FileHeader::magic_recognized(header.magic) {
            Some(TraceError::InvalidMagic)
        } else if header.linktype != LINKTYPE_ETHERNET {
            Some(TraceError::UnsupportedLinkType)
        } else {
            None
        },
    }
}

/// The state of a reader.
#[verifier::ext_equal]
pub struct ReaderState {
    /// The global header of the trace.
    pub header: FileHeader,
    /// The largest payload, in octets, that the reader accepts.
    pub limit: nat,
    /// The octets that the reader has not taken yet.
    pub remaining: Seq<u8>,
    /// The number of failures handed out so far.
    pub failures: nat,
}

impl ReaderState {
    /// The state of a reader that has just opened the trace `source`.
    pub open spec fn opened(source: Seq<u8>, limit: nat) -> ReaderState {
        ReaderState {
            header: FileHeader::parsed(source).unwrap(),
            limit,
            remaining: source.skip(SIZE_FILE_HEADER as int),
            failures: 0,
        }
    }

    /// Whether the frame headers are in big-endian byte order.
    pub open spec fn big_endian(self) -> bool {
        self.header.big_endian()
    }

    /// The frame that the reader hands out next, if any.
    pub open spec fn next_item(self) -> Option<Result<Packet, FrameError>> {
        next_frame(self.remaining, self.big_endian(), self.limit).0
    }

    /// The state behind the frame that the reader hands out next.
    pub open spec fn after_next(self) -> ReaderState {
        ReaderState {
            remaining: self.remaining.skip(
                next_frame(self.remaining, self.big_endian(), self.limit).1 as int,
            ),
            failures: if self.next_item() matches Some(Err(_)) {
                self.failures + 1
            } else {
                self.failures
            },
            ..self
        }
    }

    /// Every frame that the reader has yet to hand out, in order.
    pub open spec fn items(self) -> Seq<Result<Packet, FrameError>> {
        frames(self.remaining, self.big_endian(), self.limit)
    }

    /// The state at the end of the trace.
    pub open spec fn after_all(self) -> ReaderState {
        ReaderState {
            remaining: drained(self.remaining, self.big_endian(), self.limit),
            failures: self.failures + failures_of(self.items()),
            ..self
        }
    }
}

/// A reader over the records of a trace.
///
/// The reader owns the octets of the trace and a position in them. It hands
/// the frames out once, front to back.
pub struct CaptureReader {
    data: Vec<u8>,
    pos: usize,
    header: FileHeader,
    max_frame_size: usize,
    skipped: usize,
}

impl View for CaptureReader {
    type V = ReaderState;

    closed spec fn view(&self) -> ReaderState {
        ReaderState {
            header: self.header,
            limit: self.max_frame_size as nat,
            remaining: self.data@.skip(self.pos as int),
            failures: self.skipped as nat,
        }
    }
}

impl CaptureReader {
    #[verifier::type_invariant]
    spec fn well_formed(self) -> bool {
        self.pos <= self.data.len() && self.skipped <= self.pos
    }

    /// Opens the trace `source` with the default limit on the payload of a
    /// frame.
    ///
    /// The source is refused when it ends inside the global header, when its
    /// magic number is not recognized, and when its link-layer type is not
    /// Ethernet, in this order. Otherwise the reader stands behind the
    /// global header.
    pub fn open(source: Vec<u8>) -> (r: Result<CaptureReader, TraceError>)
        ensures
            match r {
                Ok(reader) => open_error(source@) is None && reader@ == ReaderState::opened(
                    source@,
                    MAX_FRAME_SIZE as nat,
                ),
                Err(e) => open_error(source@) == Some(e),
            },
    {
        Self::with_max_frame_size(source, MAX_FRAME_SIZE)
    }

    /// Opens the trace `source` like `open`, with `max_frame_size` as the
    /// limit on the payload of a frame.
    pub fn with_max_frame_size(source: Vec<u8>, max_frame_size: usize) -> (r: Result<
        CaptureReader,
        TraceError,
    >)
        ensures
            match r {
                Ok(reader) => open_error(source@) is None && reader@ == ReaderState::opened(
                    source@,
                    max_frame_size as nat,
                ),
                Err(e) => open_error(source@) == Some(e),
            },
    {
        let header = match FileHeader::parse(source.as_slice()) {
            Some(header) => header,
            None => {
                return Err(TraceError::TruncatedHeader);
            },
        };
        if !header.has_valid_magic() {
            return Err(TraceError::InvalidMagic);
        }
        if header.linktype != LINKTYPE_ETHERNET {
            return Err(TraceError::UnsupportedLinkType);
        }
        Ok(CaptureReader { data: source, pos: SIZE_FILE_HEADER, header, max_frame_size, skipped: 0 })
    }

    /// The global header of the trace.
    pub fn header(&self) -> (r: FileHeader)
        ensures
            r == self@.header,
    {
        self.header
    }

    /// The largest payload, in octets, that the reader accepts.
    pub fn max_frame_size(&self) -> (r: usize)
        ensures
            r == self@.limit,
    {
        self.max_frame_size
    }

    /// The number of failures handed out so far.
    pub fn skipped(&self) -> (r: usize)
        ensures
            r == self@.failures,
    {
        self.skipped
    }

    /// The number of octets that the reader has not taken. Once the trace
    /// has been read to its end, these are the octets of a record that the
    /// trace does not hold whole: none when the trace ends behind a record.
    pub fn leftover(&self) -> (r: usize)
        ensures
            r == self@.remaining.len(),
    {
        proof {
            use_type_invariant(self);
        }
        self.data.len() - self.pos
    }

    /// Looks at the record at the reader's position without moving.
    fn peek(&self) -> (r: (Step, usize))
        ensures
            (r.0, r.1 as nat) == step(self@.remaining, self@.big_endian(), self@.limit),
            self.pos + r.1 <= self.data.len(),
            !(r.0 is End) ==> r.1 >= SIZE_PACKET_HEADER,
    {
        proof {
            use_type_invariant(self);
            reveal(step);
        }
        let rest = slice_subrange(self.data.as_slice(), self.pos, self.data.len());
        let big_endian: bool = self.header.is_big_endian();
        let header = match PacketHeader::parse(rest, big_endian) {
            Some(header) => header,
            None => {
                return (Step::End, 0);
            },
        };
        let avail: usize = rest.len() - SIZE_PACKET_HEADER;
        let caplen: usize = header.caplen as usize;
        let held: usize = if caplen <= avail {
            caplen
        } else {
            avail
        };
        if caplen < SIZE_LINK_HEADER {
            return (Step::Frame(Err(FrameError::MalformedFrame)), SIZE_PACKET_HEADER + held);
        }
        if avail < SIZE_LINK_HEADER {
            return (Step::End, 0);
        }
        if caplen - SIZE_LINK_HEADER > self.max_frame_size {
            return (Step::Frame(Err(FrameError::OversizedFrame)), SIZE_PACKET_HEADER + held);
        }
        if avail < caplen {
            return (Step::End, 0);
        }
        let used: usize = SIZE_PACKET_HEADER + caplen;
        if read_u16(rest, OFFSET_ETHERTYPE, true) != ETHERTYPE_IPV4 {
            return (Step::Filtered, used);
        }
        let payload = slice_subrange(rest, OFFSET_PAYLOAD, used);
        let item = match decode(payload) {
            Ok(event) => Ok(Packet { header, event }),
            Err(e) => Err(FrameError::from_decode(e)),
        };
        (Step::Frame(item), used)
    }

    /// Hands out the next frame: an IPv4 frame decoded, or the failure of a
    /// frame that cannot be used. `None` is the end of the trace, be it after
    /// the last record or inside one.
    ///
    /// Frames of other Ethernet types are passed over. After a failure the
    /// reader stands behind the failed record and goes on from there.
    pub fn next(&mut self) -> (r: Option<Result<Packet, FrameError>>)
        ensures
            r == old(self)@.next_item(),
            final(self)@ == old(self)@.after_next(),
            old(self)@.remaining.len() >= SIZE_PACKET_HEADER && PacketHeader::layout(
                old(self)@.remaining,
                old(self)@.big_endian(),
            ).caplen < SIZE_LINK_HEADER ==> r == Some(
                Err::<Packet, FrameError>(FrameError::MalformedFrame),
            ),
            r matches Some(Ok(packet)) ==> accepted(packet, old(self)@.limit),
    {
        let ghost start = self@;
        let ghost big_endian = start.big_endian();
        let ghost max = start.limit;
        let ghost passed: nat = 0;
        proof {
            if start.remaining.len() >= SIZE_PACKET_HEADER && PacketHeader::layout(
                start.remaining,
                big_endian,
            ).caplen < SIZE_LINK_HEADER {
                lemma_short_frame_is_malformed(start.remaining, big_endian, max);
            }
        }
        loop
            invariant
                start == old(self)@,
                big_endian == start.big_endian(),
                max == start.limit,
                self@.header == start.header,
                self@.limit == start.limit,
                self@.failures == start.failures,
                passed <= start.remaining.len(),
                self@.remaining == start.remaining.skip(passed as int),
                next_frame(start.remaining, big_endian, max).0 == next_frame(
                    self@.remaining,
                    big_endian,
                    max,
                ).0,
                next_frame(start.remaining, big_endian, max).1 == passed + next_frame(
                    self@.remaining,
                    big_endian,
                    max,
                ).1,
                start.remaining.len() >= SIZE_PACKET_HEADER && PacketHeader::layout(
                    start.remaining,
                    big_endian,
                ).caplen < SIZE_LINK_HEADER ==> next_frame(start.remaining, big_endian, max).0
                    == Some(Err::<Packet, FrameError>(FrameError::MalformedFrame)),
            decreases self@.remaining.len(),
        {
            proof {
                use_type_invariant(&*self);
                lemma_step_accepted(self@.remaining, big_endian, max);
            }
            let (head, used): (Step, usize) = self.peek();
            let ghost before = self@.remaining;
            match head {
                Step::End => {
                    return None;
                },
                Step::Filtered => {
                    self.pos = self.pos + used;
                    proof {
                        assert(self@.remaining =~= before.skip(used as int));
                        passed = passed + used as nat;
                    }
                },
                Step::Frame(item) => {
                    self.pos = self.pos + used;
                    if item.is_err() {
                        self.skipped = self.skipped + 1;
                    }
                    proof {
                        assert(self@.remaining =~= before.skip(used as int));
                    }
                    return Some(item);
                },
            }
        }
    }

    /// Reads the trace to its end and returns the decoded packets in the
    /// order of their frames. Failures are counted and left out.
    pub fn read_all(&mut self) -> (packets: Vec<Packet>)
        ensures
            packets@ == decoded_of(old(self)@.items()),
            final(self)@ == old(self)@.after_all(),
            forall|k: int|
                0 <= k < packets.len() ==> accepted(#[trigger] packets[k], old(self)@.limit),
    {
        let ghost start = self@;
        let ghost big_endian = start.big_endian();
        let ghost max = start.limit;
        let ghost done: Seq<Result<Packet, FrameError>> = Seq::empty();
        let mut packets: Vec<Packet> = Vec::new();
        loop
            invariant
                start == old(self)@,
                big_endian == start.big_endian(),
                max == start.limit,
                self@.header == start.header,
                self@.limit == start.limit,
                start.items() == done + frames(self@.remaining, big_endian, max),
                drained(start.remaining, big_endian, max) == drained(
                    self@.remaining,
                    big_endian,
                    max,
                ),
                packets@ == decoded_of(done),
                self@.failures == start.failures + failures_of(done),
                forall|k: int| 0 <= k < packets.len() ==> accepted(#[trigger] packets[k], max),
            decreases self@.remaining.len(),
        {
            let ghost before = self@.remaining;
            proof {
                lemma_frames_unfold(before, big_endian, max);
                lemma_drained_unfold(before, big_endian, max);
                lemma_next_frame_takes(before, big_endian, max);
            }
            match self.next() {
                None => {
                    return packets;
                },
                Some(item) => {
                    proof {
                        assert(done.push(item).drop_last() =~= done);
                        done = done.push(item);
                    }
                    match item {
                        Ok(packet) => {
                            packets.push(packet);
                        },
                        Err(_) => {},
                    }
                },
            }
        }
    }
}

} // verus!
