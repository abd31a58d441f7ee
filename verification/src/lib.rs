//! Detection features for SYN-flood-like traffic in packet-capture traces.
//!
//! The crate decodes the frames of a classic capture file held in memory,
//! keeps the IPv4 packets, and slides a fixed-size window over them to
//! derive per-window counters.

pub mod analysis;
pub mod decode;
pub mod endian;
pub mod error;
pub mod pcap;
pub mod reader;
pub mod stream;
pub mod window;
