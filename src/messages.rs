//! Kinds and messages exchanged between the page and its workers.
use vstd::prelude::*;

verus! {

/// Which local capture stream an encoder reads.
#[derive(Clone, Copy, Debug, PartialEq, Eq, Structural)]
pub enum ReadableType {
    Audio,
    Video,
    Screen,
}

/// Which kind of stream a decode worker serves.
#[derive(Clone, Copy, Debug, PartialEq, Eq, Structural)]
pub enum DecoderType {
    Audio,
    Video,
}

/// Events the connection worker reports to the page.
#[derive(Clone, Debug)]
pub enum AgentMsg {
    Start,
    OnConnected,
    OnConnectionLost,
    OnPeerAdded { peer_id: String },
}

/// Requests the page sends to the connection worker.
#[derive(Clone, Debug)]
pub enum ConnectionAgentMsg {
    Init { user_name: String, meeting_id: String, origin_url: String },
    Connect,
    StopEncoder { readable_type: ReadableType },
}

} // verus!
