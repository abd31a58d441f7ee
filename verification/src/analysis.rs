//! From the octets of a trace to the counters of its windows.

use vstd::prelude::*;
use crate::error::{FrameError, TraceError};
use crate::pcap::Packet;
use crate::reader::{open_error, CaptureReader, ReaderState, MAX_FRAME_SIZE};
use crate::stream::{decoded_of, failures_of, lemma_decoded_or_failed};
use crate::window::{aggregate, window_count, FeatureVector};

verus! {

/// What a trace yields.
#[derive(Debug, PartialEq, Eq)]
pub struct Analysis {
    /// Number of IPv4 packets that were decoded.
    pub packet_count: usize,
    /// Number of frames that were left out as failures.
    pub skipped: usize,
    /// Number of octets at the end of the trace that are no whole record:
    /// none unless the trace was cut off inside a record.
    pub leftover: usize,
    /// The counters of each window over the decoded packets.
    pub features: Vec<FeatureVector>,
}

/// Every frame that the trace `source` hands out to a reader with the
/// default limit, in order.
pub open spec fn trace_frames(source: Seq<u8>) -> Seq<Result<Packet, FrameError>> {
    ReaderState::opened(source, MAX_FRAME_SIZE as nat).items()
}

/// The decoded packets of the trace `source`, in order.
pub open spec fn trace_packets(source: Seq<u8>) -> Seq<Packet> {
    decoded_of(trace_frames(source))
}

/// Reads the trace `source` to its end and slides a window of `window_size`
/// packets over its decoded packets.
///
/// A source that cannot be opened yields the reason and nothing else. Frames
/// that fail are left out of the packets and counted.
pub fn analyze(source: Vec<u8>, window_size: usize) -> (r: Result<Analysis, TraceError>)
    ensures
        match r {
            Ok(analysis) => {
                &&& open_error(source@) is None
                &&& analysis.packet_count == trace_packets(source@).len()
                &&& analysis.skipped == failures_of(trace_frames(source@))
                &&& analysis.packet_count + analysis.skipped == trace_frames(source@).len()
                &&& analysis.leftover == ReaderState::opened(
                    source@,
                    MAX_FRAME_SIZE as nat,
                ).after_all().remaining.len()
                &&& analysis.features.len() == window_count(
                    analysis.packet_count as int,
                    window_size as int,
                )
                &&& forall|i: int|
                    0 <= i < analysis.features.len() ==> (#[trigger] analysis.features[i]).describes(
                        trace_packets(source@),
                        i,
                        window_size as int,
                    )
            },
            Err(e) => open_error(source@) == Some(e),
        },
{
    let ghost octets = source@;
    let mut reader = match CaptureReader::open(source) {
        Ok(reader) => reader,
        Err(e) => {
            return Err(e);
        },
    };
    let packets = reader.read_all();
    proof {
        lemma_decoded_or_failed(trace_frames(octets));
    }
    let features = aggregate(packets.as_slice(), window_size);
    Ok(
        Analysis {
            packet_count: packets.len(),
            skipped: reader.skipped(),
            leftover: reader.leftover(),
            features,
        },
    )
}

} // verus!
