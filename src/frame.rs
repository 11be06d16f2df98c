use vstd::prelude::*;

verus! {

/// Decode dependency class of an encoded frame.
#[derive(Clone, Copy, Debug, PartialEq, Eq, Structural)]
pub enum FrameKind {
    /// Self-contained; decodable without earlier frames.
    Key,
    /// Decodable only given the frame just before it.
    Delta,
}

/// Which stream of a peer a frame belongs to.
#[derive(Clone, Copy, Debug, PartialEq, Eq, Structural)]
pub enum MediaKind {
    Audio,
    Video,
    Screen,
}

/// One encoded frame as it arrives from the network.
///
/// The presentation time and the duration are carried as the bit patterns of
/// IEEE-754 doubles: the logic here never reads them, it only hands them on.
#[derive(Clone, Debug)]
pub struct VideoPacket {
    pub data: Vec<u8>,
    pub chunk_type: FrameKind,
    pub timestamp_bits: u64,
    pub duration_bits: u64,
    pub sequence_number: u64,
}

/// What a decode call reports to its caller.
#[derive(Clone, Copy, Debug, PartialEq, Eq, Structural)]
pub struct DecodeStatus {
    /// Emission is fire-and-forget to the output sink, so this is always set.
    pub rendered: bool,
    /// Set while the stream waits for a key frame.
    pub blocked_on_key: bool,
}

/// Errors surfaced to the caller of a decode path.
#[derive(Clone, Copy, Debug, PartialEq, Eq, Structural)]
pub enum PeerDecodeError {
    /// The inbound bytes are not a well-formed media packet.
    PacketParseError,
}

} // verus!
