//! Receive-side media pipeline of a video-call client: per-stream frame
//! sequencing, bounded reordering, and decoder fault recovery; plus the
//! small state records of the capture side and the page.
pub mod adapter;
pub mod app_store;
pub mod bridge;
pub mod device_state;
pub mod frame;
pub mod guarantees;
pub mod manager;
pub mod messages;
pub mod packet;
pub mod reorder_buffer;
pub mod sequencer;
pub mod users;

pub use adapter::{DecoderOutput, DecoderState, FrameDecoderAdapter};
pub use app_store::{AppMsg, AppStore};
pub use bridge::{Audio, AudioWorkerDecoder, Decode, FakeDecoder, ThreadType, Video, WorkerDecoder};
pub use device_state::{DeviceState, EncoderState};
pub use frame::{DecodeStatus, FrameKind, MediaKind, PeerDecodeError, VideoPacket};
pub use manager::PeerDecodeManager;
pub use messages::{AgentMsg, ConnectionAgentMsg, DecoderType, ReadableType};
pub use packet::{parse_media_packet, MediaPacket};
pub use reorder_buffer::{ReorderBuffer, MAX_BUFFER_SIZE};
pub use sequencer::VideoWorkerDecoder;
pub use users::split_users;
