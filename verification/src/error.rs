//! The ways in which a trace, a frame or a payload is refused.

use vstd::prelude::*;

verus! {

/// Why a trace cannot be read at all.
#[derive(Clone, Copy, Debug, PartialEq, Eq, Structural)]
pub enum TraceError {
    /// The source ends inside the global header.
    TruncatedHeader,
    /// The magic number is not that of a classic capture file.
    InvalidMagic,
    /// The frames are not Ethernet frames.
    UnsupportedLinkType,
}

/// Why one frame of a trace is left out.
#[derive(Clone, Copy, Debug, PartialEq, Eq, Structural)]
pub enum FrameError {
    /// The captured length is too small to hold an Ethernet header.
    MalformedFrame,
    /// The payload is longer than the reader's limit.
    OversizedFrame,
    /// The payload ends inside a header that it announces.
    TruncatedHeader,
}

/// Why a payload cannot be decoded.
#[derive(Clone, Copy, Debug, PartialEq, Eq, Structural)]
pub enum DecodeError {
    /// The payload ends inside the IPv4 header, or inside the TCP or ICMP
    /// header that the IPv4 header announces.
    TruncatedHeader,
}

impl FrameError {
    /// The failure of a frame whose payload was refused with `error`.
    pub open spec fn of_decode(error: DecodeError) -> FrameError {
        match error {
            DecodeError::TruncatedHeader => FrameError::TruncatedHeader,
        }
    }

    /// The failure of a frame whose payload was refused with `error`.
    pub fn from_decode(error: DecodeError) -> (r: FrameError)
        ensures
            r == Self::of_decode(error),
    {
        match error {
            DecodeError::TruncatedHeader => FrameError::TruncatedHeader,
        }
    }
}

} // verus!
