//! Sliding-window counters over a sequence of decoded packets.
//!
//! A window of width `w` that starts at index `i` covers the packets at the
//! indices `i` to `i + w - 1`. One window starts at every index at which a
//! whole window fits. The counters are exact integers: the sums, and the
//! width to divide them by.

use vstd::prelude::*;
use crate::pcap::{Packet, FLAGS_SYN, FLAGS_SYN_ACK, PROTOCOL_ICMP};

verus! {

/// The counters of one window.
#[derive(Clone, Copy, Debug, PartialEq, Eq, Structural)]
pub struct FeatureVector {
    /// Number of packets in the window.
    pub window_size: usize,
    /// Number of TCP segments whose only flag is SYN.
    pub syn_count: usize,
    /// Number of TCP segments whose only flags are SYN and ACK.
    pub syn_ack_count: usize,
    /// Number of packets whose IPv4 protocol is ICMP.
    pub icmp_count: usize,
    /// Sum of the IPv4 total lengths.
    pub size_sum: u128,
    /// Sum, in microseconds, of the time from each packet's predecessor in
    /// the whole sequence to the packet. The first packet of the sequence
    /// has no predecessor and adds nothing.
    pub time_sum: i64,
}

/// Number of packets among `s[lo..hi]` that are TCP segments whose flags
/// octet is exactly `flags`.
pub open spec fn count_flags(s: Seq<Packet>, lo: int, hi: int, flags: u8) -> int
    decreases hi - lo,
{
    if hi <= lo {
        0
    } else {
        count_flags(s, lo, hi - 1, flags) + if s[hi - 1].has_tcp_flags(flags) {
            1int
        } else {
            0int
        }
    }
}

/// Number of packets among `s[lo..hi]` whose IPv4 protocol is `protocol`.
pub open spec fn count_protocol(s: Seq<Packet>, lo: int, hi: int, protocol: u8) -> int
    decreases hi - lo,
{
    if hi <= lo {
        0
    } else {
        count_protocol(s, lo, hi - 1, protocol) + if s[hi - 1].event.ip.protocol == protocol {
            1int
        } else {
            0int
        }
    }
}

/// Sum of the IPv4 total lengths of `s[lo..hi]`.
pub open spec fn sum_sizes(s: Seq<Packet>, lo: int, hi: int) -> int
    decreases hi - lo,
{
    if hi <= lo {
        0
    } else {
        sum_sizes(s, lo, hi - 1) + s[hi - 1].event.ip.total_length
    }
}

/// Capture time of `s[k]` in microseconds.
pub open spec fn time_at(s: Seq<Packet>, k: int) -> int {
    s[k].header.timestamp.micros()
}

/// Time from the predecessor of `s[k]` to `s[k]`, in microseconds; nothing
/// for the first packet.
pub open spec fn gap(s: Seq<Packet>, k: int) -> int {
    if k <= 0 {
        0
    } else {
        time_at(s, k) - time_at(s, k - 1)
    }
}

/// Sum of the gaps in front of the packets `s[lo..hi]`.
pub open spec fn sum_gaps(s: Seq<Packet>, lo: int, hi: int) -> int
    decreases hi - lo,
{
    if hi <= lo {
        0
    } else {
        sum_gaps(s, lo, hi - 1) + gap(s, hi - 1)
    }
}

/// Number of windows of width `width` over `len` packets.
pub open spec fn window_count(len: int, width: int) -> int {
    if width <= len {
        len - width + 1
    } else {
        0
    }
}

impl FeatureVector {
    /// The counters are those of the window of `s` that starts at `start`
    /// and is `width` packets wide.
    pub open spec fn describes(self, s: Seq<Packet>, start: int, width: int) -> bool {
        &&& self.window_size == width
        &&& self.syn_count == count_flags(s, start, start + width, FLAGS_SYN)
        &&& self.syn_ack_count == count_flags(s, start, start + width, FLAGS_SYN_ACK)
        &&& self.icmp_count == count_protocol(s, start, start + width, PROTOCOL_ICMP)
        &&& self.size_sum == sum_sizes(s, start, start + width)
        &&& self.time_sum == sum_gaps(s, start, start + width)
    }

    /// A vector of the given counters, in the order of the fields.
    fn of_counters(
        window_size: usize,
        syn_count: usize,
        syn_ack_count: usize,
        icmp_count: usize,
        size_sum: u128,
        time_sum: i64,
    ) -> (r: FeatureVector)
        ensures
            r == (FeatureVector {
                window_size,
                syn_count,
                syn_ack_count,
                icmp_count,
                size_sum,
                time_sum,
            }),
    {
        FeatureVector { window_size, syn_count, syn_ack_count, icmp_count, size_sum, time_sum }
    }

    /// The number of SYN segments less the number of SYN-ACK segments.
    pub fn syn_minus_syn_ack(&self) -> (r: i128)
        ensures
            r == self.syn_count - self.syn_ack_count,
    {
        self.syn_count as i128 - self.syn_ack_count as i128
    }
}

/// A count of packets among `s[lo..hi]` lies between nothing and all.
pub proof fn lemma_count_bounds(s: Seq<Packet>, lo: int, hi: int, flags: u8, protocol: u8)
    requires
        lo <= hi,
    ensures
        0 <= count_flags(s, lo, hi, flags) <= hi - lo,
        0 <= count_protocol(s, lo, hi, protocol) <= hi - lo,
        0 <= sum_sizes(s, lo, hi) <= 65535 * (hi - lo),
    decreases hi - lo,
{
    if lo < hi {
        lemma_count_bounds(s, lo, hi - 1, flags, protocol);
    }
}

/// The gaps in front of the packets of a window add up to the time from the
/// packet in front of the window to the last packet of the window; for the
/// window at the start of the sequence, to the time from the first packet.
pub proof fn lemma_gaps_telescope(s: Seq<Packet>, lo: int, hi: int)
    requires
        0 <= lo < hi,
    ensures
        sum_gaps(s, lo, hi) == time_at(s, hi - 1) - time_at(
            s,
            if lo == 0 {
                0
            } else {
                lo - 1
            },
        ),
    decreases hi - lo,
{
    if lo + 1 < hi {
        lemma_gaps_telescope(s, lo, hi - 1);
    } else {
        assert(sum_gaps(s, lo, lo) == 0);
    }
}

/// The counters of the window of `packets` that starts at `start`.
fn window_at(packets: &[Packet], start: usize, width: usize) -> (r: FeatureVector)
    requires
        start + width <= packets.len(),
    ensures
        r.describes(packets@, start as int, width as int),
{
    let mut syn: usize = 0;
    let mut syn_ack: usize = 0;
    let mut control: usize = 0;
    let mut size: u128 = 0;
    let mut time: i64 = 0;
    let mut j: usize = 0;
    while j < width
        invariant
            j <= width,
            start + width <= packets.len(),
            syn == count_flags(packets@, start as int, start + j, FLAGS_SYN),
            syn_ack == count_flags(packets@, start as int, start + j, FLAGS_SYN_ACK),
            control == count_protocol(packets@, start as int, start + j, PROTOCOL_ICMP),
            size == sum_sizes(packets@, start as int, start + j),
            time == sum_gaps(packets@, start as int, start + j),
        decreases width - j,
    {
        let k: usize = start + j;
        let packet = &packets[k];
        proof {
            lemma_count_bounds(packets@, start as int, k as int, FLAGS_SYN, PROTOCOL_ICMP);
            lemma_count_bounds(packets@, start as int, k as int, FLAGS_SYN_ACK, PROTOCOL_ICMP);
            if j > 0 {
                lemma_gaps_telescope(packets@, start as int, k as int);
            }
        }
        if packet.is_syn() {
            syn = syn + 1;
        }
        if packet.is_synack() {
            syn_ack = syn_ack + 1;
        }
        if packet.event.ip.protocol == PROTOCOL_ICMP {
            control = control + 1;
        }
        size = size + packet.event.ip.total_length as u128;
        if k > 0 {
            time = time + (packet.get_time_usec() - packets[k - 1].get_time_usec());
        }
        j = j + 1;
    }
    FeatureVector::of_counters(width, syn, syn_ack, control, size, time)
}

/// Slides a window of `window_size` packets over `packets`, one step at a
/// time, and returns the counters of every window in the order of their
/// starts.
///
/// There are `len - window_size + 1` windows when `packets` holds at least
/// `window_size` packets, and none when it holds fewer. A window of no
/// packets counts nothing, wherever it starts.
pub fn aggregate(packets: &[Packet], window_size: usize) -> (features: Vec<FeatureVector>)
    ensures
        features.len() == window_count(packets.len() as int, window_size as int),
        forall|i: int|
            0 <= i < features.len() ==> (#[trigger] features[i]).describes(
                packets@,
                i,
                window_size as int,
            ),
{
    let mut features: Vec<FeatureVector> = Vec::new();
    if window_size > packets.len() {
        return features;
    }
    let last: usize = packets.len() - window_size;
    let mut i: usize = 0;
    while i < last
        invariant
            last == packets.len() - window_size,
            i <= last,
            features.len() == i,
            forall|k: int|
                0 <= k < i ==> (#[trigger] features[k]).describes(packets@, k, window_size as int),
        decreases last - i,
    {
        let feature = window_at(packets, i, window_size);
        features.push(feature);
        i = i + 1;
    }
    let feature = window_at(packets, last, window_size);
    features.push(feature);
    features
}

/// The indices of the packets among `s[lo..hi]` that are TCP segments whose
/// flags octet is exactly `flags`.
pub open spec fn flagged(s: Seq<Packet>, lo: int, hi: int, flags: u8) -> Set<int> {
    Set::new(|k: int| lo <= k < hi && s[k].has_tcp_flags(flags))
}

/// `count_flags` is the number of packets that carry the flags.
pub proof fn lemma_count_flags_is_cardinality(s: Seq<Packet>, lo: int, hi: int, flags: u8)
    requires
        lo <= hi,
    ensures
        flagged(s, lo, hi, flags).finite(),
        flagged(s, lo, hi, flags).len() == count_flags(s, lo, hi, flags),
    decreases hi - lo,
{
    if lo == hi {
        assert(flagged(s, lo, hi, flags) =~= Set::<int>::empty());
    } else {
        lemma_count_flags_is_cardinality(s, lo, hi - 1, flags);
        if s[hi - 1].has_tcp_flags(flags) {
            assert(flagged(s, lo, hi, flags) =~= flagged(s, lo, hi - 1, flags).insert(hi - 1));
        } else {
            assert(flagged(s, lo, hi, flags) =~= flagged(s, lo, hi - 1, flags));
        }
    }
}

/// A window that holds `k` SYN segments and no SYN-ACK segment counts `k`
/// of the one and none of the other.
pub proof fn lemma_syn_only_window(
    feature: FeatureVector,
    s: Seq<Packet>,
    start: int,
    width: int,
    k: nat,
)
    requires
        0 <= width,
        feature.describes(s, start, width),
        flagged(s, start, start + width, FLAGS_SYN).len() == k,
        forall|j: int| start <= j < start + width ==> !(#[trigger] s[j]).has_tcp_flags(FLAGS_SYN_ACK),
    ensures
        feature.syn_count == k,
        feature.syn_ack_count == 0,
        feature.syn_count - feature.syn_ack_count == k,
{
    lemma_count_flags_is_cardinality(s, start, start + width, FLAGS_SYN);
    lemma_count_flags_is_cardinality(s, start, start + width, FLAGS_SYN_ACK);
    assert(flagged(s, start, start + width, FLAGS_SYN_ACK) =~= Set::<int>::empty());
}

/// A packet that is not a TCP segment adds to neither count of flags.
pub proof fn lemma_only_tcp_is_counted(s: Seq<Packet>, lo: int, hi: int, flags: u8)
    requires
        lo <= hi,
        forall|j: int| lo <= j < hi ==> !((#[trigger] s[j]).event.proto is TCP),
    ensures
        count_flags(s, lo, hi, flags) == 0,
    decreases hi - lo,
{
    if lo < hi {
        lemma_only_tcp_is_counted(s, lo, hi - 1, flags);
    }
}

/// Where every packet of a window has the IPv4 total length `length`, the
/// lengths add up to `length` times the width: their mean is `length`, with
/// nothing left over.
pub proof fn lemma_uniform_size_window(
    feature: FeatureVector,
    s: Seq<Packet>,
    start: int,
    width: int,
    length: u16,
)
    requires
        0 <= width,
        feature.describes(s, start, width),
        forall|j: int|
            start <= j < start + width ==> (#[trigger] s[j]).event.ip.total_length == length,
    ensures
        feature.size_sum == length * width,
        width > 0 ==> feature.size_sum / (feature.window_size as u128) == length,
        width > 0 ==> feature.size_sum % (feature.window_size as u128) == 0,
{
    lemma_sum_of_equal_sizes(s, start, start + width, length);
    if width > 0 {
        let total = feature.size_sum as int;
        assert(total / width == length && total % width == 0) by (nonlinear_arith)
            requires
                total == length * width,
                width > 0,
        ;
    }
}

/// The sizes of packets of one length add up to the length times their number.
proof fn lemma_sum_of_equal_sizes(s: Seq<Packet>, lo: int, hi: int, length: u16)
    requires
        lo <= hi,
        forall|j: int| lo <= j < hi ==> (#[trigger] s[j]).event.ip.total_length == length,
    ensures
        sum_sizes(s, lo, hi) == length * (hi - lo),
    decreases hi - lo,
{
    if lo < hi {
        lemma_sum_of_equal_sizes(s, lo, hi - 1, length);
        assert(length * (hi - 1 - lo) + length == length * (hi - lo)) by (nonlinear_arith);
    } else {
        assert(length * (hi - lo) == 0) by (nonlinear_arith)
            requires
                hi - lo == 0,
        ;
    }
}

/// Where the packets up to the end of a window follow one another at the
/// same distance `step`, a window behind the start of the sequence adds up
/// `step` for each of its packets, its first one too: that one is measured
/// from the packet in front of the window. The window at the start of the
/// sequence adds up one `step` less.
pub proof fn lemma_even_spacing_window(
    feature: FeatureVector,
    s: Seq<Packet>,
    start: int,
    width: int,
    step: int,
)
    requires
        0 <= start,
        0 < width,
        feature.describes(s, start, width),
        forall|k: int| 0 < k < start + width ==> #[trigger] gap(s, k) == step,
    ensures
        start > 0 ==> feature.time_sum == step * width,
        start == 0 ==> feature.time_sum == step * (width - 1),
{
    lemma_sum_of_equal_gaps(s, start, start + width, step);
}

/// Equal gaps add up to the gap times their number, less the one that the
/// first packet of the sequence does not have.
proof fn lemma_sum_of_equal_gaps(s: Seq<Packet>, lo: int, hi: int, step: int)
    requires
        0 <= lo <= hi,
        forall|k: int| 0 < k < hi ==> #[trigger] gap(s, k) == step,
    ensures
        lo > 0 ==> sum_gaps(s, lo, hi) == step * (hi - lo),
        lo == 0 && hi > 0 ==> sum_gaps(s, lo, hi) == step * (hi - 1),
    decreases hi - lo,
{
    if lo < hi {
        lemma_sum_of_equal_gaps(s, lo, hi - 1, step);
        if hi - 1 > 0 {
            assert(step * (hi - 1 - lo) + step == step * (hi - lo)) by (nonlinear_arith);
            assert(step * (hi - 2) + step == step * (hi - 1)) by (nonlinear_arith);
        } else {
            assert(sum_gaps(s, lo, hi - 1) == 0);
            assert(step * (hi - 1) == 0) by (nonlinear_arith)
                requires
                    hi - 1 == 0,
            ;
        }
    } else {
        assert(step * (hi - lo) == 0) by (nonlinear_arith)
            requires
                hi - lo == 0,
        ;
    }
}

} // verus!
