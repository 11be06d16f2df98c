//! One decode capability, two ways to run it: on the caller's thread, or
//! handed to an isolated worker by one-way messages.
use vstd::prelude::*;

use vstd::slice::slice_to_vec;

use crate::adapter::{decode_packet_spec, AdapterView, DecoderOutput, FrameDecoderAdapter};
use crate::frame::{DecodeStatus, PeerDecodeError, VideoPacket};
use crate::packet::{parse_media_packet, parse_spec};
use crate::sequencer::{
    collected, fresh_view, frame_matches, step, SequencerView, VideoWorkerDecoder,
};

verus! {

/// The uniform capability behind every decode path: one packet's bytes in,
/// a status out, with the effect that `decode_effect` states for each kind
/// of path.
pub trait Decode {
    /// The decoder can take a packet.
    spec fn ready(&self) -> bool;

    /// The decoder's state, as plain values.
    spec fn path_view(&self) -> DecodePathView;

    fn decode(&mut self, packet: &Vec<u8>) -> (r: Result<DecodeStatus, PeerDecodeError>)
        requires
            old(self).ready(),
        ensures
            final(self).ready(),
            decode_effect(old(self).path_view(), final(self).path_view(), packet@, r),
    ;
}

/// Where a stream's decoding runs; chosen once per stream.
#[derive(Clone, Copy, Debug, PartialEq, Eq, Structural)]
pub enum ThreadType {
    /// On the caller's thread.
    Single,
    /// In a worker of its own.
    Multithread,
}

/// The status every call reports where the caller cannot see the stream.
pub open spec fn blind_status() -> DecodeStatus {
    DecodeStatus { rendered: true, blocked_on_key: true }
}

/// Stands in until a stream's media is set: accepts and discards.
#[derive(Debug)]
pub struct FakeDecoder {}

impl FakeDecoder {
    pub fn new() -> (r: Self) {
        FakeDecoder {  }
    }

    pub fn decode(&mut self, _packet: &Vec<u8>) -> (r: Result<DecodeStatus, PeerDecodeError>)
        ensures
            r == Ok::<DecodeStatus, PeerDecodeError>(blind_status()),
    {
        Ok(DecodeStatus { rendered: true, blocked_on_key: true })
    }
}

/// The calling side of a stream decoded in a worker: each packet's bytes
/// are queued, in order, as one message for the worker; nothing comes back
/// per frame.
#[derive(Debug)]
pub struct WorkerDecoder {
    outbox: Vec<Vec<u8>>,
}

impl View for WorkerDecoder {
    type V = Seq<Seq<u8>>;

    closed spec fn view(&self) -> Seq<Seq<u8>> {
        self.outbox@.map_values(|m: Vec<u8>| m@)
    }
}

impl WorkerDecoder {
    pub fn new() -> (r: Self)
        ensures
            r@ == Seq::<Seq<u8>>::empty(),
    {
        let r = WorkerDecoder { outbox: Vec::new() };
        proof {
            assert(r@ =~= Seq::<Seq<u8>>::empty());
        }
        r
    }

    /// Queues `media_packet` for the worker.
    pub fn decode(&mut self, media_packet: &Vec<u8>) -> (r: Result<DecodeStatus, PeerDecodeError>)
        ensures
            final(self)@ == old(self)@.push(media_packet@),
            r == Ok::<DecodeStatus, PeerDecodeError>(blind_status()),
    {
        let message = slice_to_vec(media_packet.as_slice());
        self.outbox.push(message);
        proof {
            assert(self@ =~= old(self)@.push(media_packet@));
        }
        Ok(DecodeStatus { rendered: true, blocked_on_key: true })
    }

    /// Hands over the queued messages, oldest first, and empties the queue.
    pub fn take_messages(&mut self) -> (r: Vec<Vec<u8>>)
        ensures
            r@.map_values(|m: Vec<u8>| m@) == old(self)@,
            final(self)@ == Seq::<Seq<u8>>::empty(),
    {
        let mut r: Vec<Vec<u8>> = Vec::new();
        r.append(&mut self.outbox);
        proof {
            assert(self@ =~= Seq::<Seq<u8>>::empty());
        }
        r
    }
}

/// Audio of one peer decoded on the caller's thread: each frame goes to
/// the decoder as it comes, with no reordering.
pub struct AudioWorkerDecoder {
    audio_decoder: FrameDecoderAdapter,
}

impl View for AudioWorkerDecoder {
    type V = AdapterView;

    closed spec fn view(&self) -> AdapterView {
        self.audio_decoder@
    }
}

impl AudioWorkerDecoder {
    pub fn new(audio_decoder: FrameDecoderAdapter) -> (r: Self)
        ensures
            r@ == audio_decoder@,
    {
        AudioWorkerDecoder { audio_decoder }
    }

    /// Reads one packet and dispatches its frame on the decoder's state: it
    /// is decoded while configured, dropped while unconfigured, and a closed
    /// decoder is replaced by a configured one (the frame is then lost).
    /// Malformed bytes change nothing.
    pub fn decode(&mut self, packet: &Vec<u8>) -> (r: Result<DecodeStatus, PeerDecodeError>)
        ensures
            match parse_spec(packet@) {
                None => r == Err::<DecodeStatus, PeerDecodeError>(PeerDecodeError::PacketParseError)
                    && final(self)@ == old(self)@,
                Some(p) => r == Ok::<DecodeStatus, PeerDecodeError>(blind_status()) && exists|
                    f: VideoPacket,
                | #[trigger] frame_matches(p, f) && final(self)@ == decode_packet_spec(old(self)@, f).0,
            },
    {
        match parse_media_packet(packet.as_slice()) {
            Ok(media_packet) => {
                let frame = VideoPacket::from(media_packet);
                let ghost g = frame;
                self.audio_decoder.decode_packet(frame);
                proof {
                    assert(frame_matches(parse_spec(packet@).unwrap(), g));
                }
                Ok(DecodeStatus { rendered: true, blocked_on_key: true })
            },
            Err(e) => Err(e),
        }
    }

    /// Records that the decoder engine reported a fatal fault: frames are
    /// dropped from then on.
    pub fn report_decoder_closed(&mut self)
        ensures
            final(self)@ == (AdapterView {
                state: crate::adapter::DecoderState::Closed,
                ..old(self)@
            }),
    {
        self.audio_decoder.close();
    }

    pub fn take_output(&mut self) -> (r: DecoderOutput)
        ensures
            r.frames@ == old(self)@.output,
            r.replace_instance == old(self)@.replace_pending,
            final(self)@ == (AdapterView {
                replace_pending: false,
                output: Seq::<VideoPacket>::empty(),
                ..old(self)@
            }),
    {
        self.audio_decoder.take_output()
    }
}

/// The decode path of a video stream, as plain values.
pub enum VideoPath {
    Fake,
    InProcess(SequencerView),
    Delegated(Seq<Seq<u8>>),
}

enum VideoBackend {
    Fake(FakeDecoder),
    InProcess(VideoWorkerDecoder),
    Delegated(WorkerDecoder),
}

/// A remote peer's camera or screen stream.
pub struct Video {
    thread_type: ThreadType,
    decoder: VideoBackend,
}

impl Video {
    pub closed spec fn thread_type_spec(&self) -> ThreadType {
        self.thread_type
    }

    pub closed spec fn path(&self) -> VideoPath {
        match self.decoder {
            VideoBackend::Fake(_) => VideoPath::Fake,
            VideoBackend::InProcess(s) => VideoPath::InProcess(s@),
            VideoBackend::Delegated(w) => VideoPath::Delegated(w@),
        }
    }

    pub closed spec fn wf(&self) -> bool {
        match self.decoder {
            VideoBackend::InProcess(s) => s.wf(),
            _ => true,
        }
    }

    /// A stream whose media is not set yet.
    pub fn new(thread_type: ThreadType) -> (r: Self)
        ensures
            r.wf(),
            r.thread_type_spec() == thread_type,
            r.path() is Fake,
    {
        Video { thread_type, decoder: VideoBackend::Fake(FakeDecoder::new()) }
    }

    /// Sets up the real decode path for the stream's thread type: a fresh
    /// sequencer on this thread, or a worker queue.
    pub fn set_media(&mut self)
        ensures
            final(self).wf(),
            final(self).thread_type_spec() == old(self).thread_type_spec(),
            final(self).path() == (match old(self).thread_type_spec() {
                ThreadType::Single => VideoPath::InProcess(fresh_view()),
                ThreadType::Multithread => VideoPath::Delegated(Seq::empty()),
            }),
    {
        match self.thread_type {
            ThreadType::Single => {
                self.decoder = VideoBackend::InProcess(VideoWorkerDecoder::open());
            },
            ThreadType::Multithread => {
                self.decoder = VideoBackend::Delegated(WorkerDecoder::new());
            },
        }
    }

    /// Hands one packet to the stream's decode path.
    pub fn decode(&mut self, media_packet: &Vec<u8>) -> (r: Result<DecodeStatus, PeerDecodeError>)
        requires
            old(self).wf(),
        ensures
            final(self).wf(),
            final(self).thread_type_spec() == old(self).thread_type_spec(),
            match old(self).path() {
                VideoPath::Fake => final(self).path() is Fake && r == Ok::<
                    DecodeStatus,
                    PeerDecodeError,
                >(blind_status()),
                VideoPath::Delegated(q) => final(self).path() == VideoPath::Delegated(
                    q.push(media_packet@),
                ) && r == Ok::<DecodeStatus, PeerDecodeError>(blind_status()),
                VideoPath::InProcess(m) => match parse_spec(media_packet@) {
                    None => r == Err::<DecodeStatus, PeerDecodeError>(
                        PeerDecodeError::PacketParseError,
                    ) && final(self).path() == old(self).path(),
                    Some(p) => exists|f: VideoPacket|
                        #[trigger] frame_matches(p, f) && final(self).path() == VideoPath::InProcess(
                            step(m, f),
                        ) && r == Ok::<DecodeStatus, PeerDecodeError>(
                            DecodeStatus { rendered: true, blocked_on_key: step(m, f).require_key },
                        ),
                },
            },
    {
        match &mut self.decoder {
            VideoBackend::Fake(d) => d.decode(media_packet),
            VideoBackend::InProcess(s) => s.decode_bytes(media_packet.as_slice()),
            VideoBackend::Delegated(w) => w.decode(media_packet),
        }
    }

    /// Collects what the in-process decoder must be given; `None` on the
    /// other paths.
    pub fn take_output(&mut self) -> (r: Option<DecoderOutput>)
        requires
            old(self).wf(),
        ensures
            final(self).wf(),
            final(self).thread_type_spec() == old(self).thread_type_spec(),
            match old(self).path() {
                VideoPath::InProcess(m) => r.is_some() && r.unwrap().frames@ == m.decoder.output
                    && r.unwrap().replace_instance == m.decoder.replace_pending && final(self).path()
                    == VideoPath::InProcess(collected(m)),
                _ => r.is_none() && final(self).path() == old(self).path(),
            },
    {
        match &mut self.decoder {
            VideoBackend::InProcess(s) => Some(s.take_output()),
            _ => None,
        }
    }

    /// Hands over the messages queued for the worker; empty on the other
    /// paths.
    pub fn take_messages(&mut self) -> (r: Vec<Vec<u8>>)
        requires
            old(self).wf(),
        ensures
            final(self).wf(),
            final(self).thread_type_spec() == old(self).thread_type_spec(),
            match old(self).path() {
                VideoPath::Delegated(q) => r@.map_values(|m: Vec<u8>| m@) == q
                    && final(self).path() == VideoPath::Delegated(Seq::empty()),
                _ => r@.len() == 0 && final(self).path() == old(self).path(),
            },
    {
        match &mut self.decoder {
            VideoBackend::Delegated(w) => w.take_messages(),
            _ => Vec::new(),
        }
    }
}

/// The decode path of an audio stream, as plain values.
pub enum AudioPath {
    Fake,
    InProcess(AdapterView),
    Delegated(Seq<Seq<u8>>),
}

enum AudioBackend {
    Fake(FakeDecoder),
    InProcess(AudioWorkerDecoder),
    Delegated(WorkerDecoder),
}

/// The adapter of a freshly configured decoder, as plain values.
pub open spec fn configured_view() -> AdapterView {
    AdapterView {
        state: crate::adapter::DecoderState::Configured,
        replace_pending: false,
        output: Seq::empty(),
    }
}

/// A remote peer's microphone stream.
pub struct Audio {
    thread_type: ThreadType,
    decoder: AudioBackend,
}

impl Audio {
    pub closed spec fn thread_type_spec(&self) -> ThreadType {
        self.thread_type
    }

    pub closed spec fn path(&self) -> AudioPath {
        match self.decoder {
            AudioBackend::Fake(_) => AudioPath::Fake,
            AudioBackend::InProcess(a) => AudioPath::InProcess(a@),
            AudioBackend::Delegated(w) => AudioPath::Delegated(w@),
        }
    }

    /// A stream whose media is not set yet.
    pub fn new(thread_type: ThreadType) -> (r: Self)
        ensures
            r.thread_type_spec() == thread_type,
            r.path() is Fake,
    {
        Audio { thread_type, decoder: AudioBackend::Fake(FakeDecoder::new()) }
    }

    /// Sets up the real decode path for the stream's thread type: a
    /// configured decoder on this thread, or a worker queue.
    pub fn set_media(&mut self)
        ensures
            final(self).thread_type_spec() == old(self).thread_type_spec(),
            final(self).path() == (match old(self).thread_type_spec() {
                ThreadType::Single => AudioPath::InProcess(configured_view()),
                ThreadType::Multithread => AudioPath::Delegated(Seq::empty()),
            }),
    {
        match self.thread_type {
            ThreadType::Single => {
                let mut adapter = FrameDecoderAdapter::new();
                adapter.configure();
                proof {
                    assert(adapter@.output =~= configured_view().output);
                }
                self.decoder = AudioBackend::InProcess(AudioWorkerDecoder::new(adapter));
            },
            ThreadType::Multithread => {
                self.decoder = AudioBackend::Delegated(WorkerDecoder::new());
            },
        }
    }

    /// Hands one packet to the stream's decode path.
    pub fn decode(&mut self, media_packet: &Vec<u8>) -> (r: Result<DecodeStatus, PeerDecodeError>)
        ensures
            final(self).thread_type_spec() == old(self).thread_type_spec(),
            match old(self).path() {
                AudioPath::Fake => final(self).path() is Fake && r == Ok::<
                    DecodeStatus,
                    PeerDecodeError,
                >(blind_status()),
                AudioPath::Delegated(q) => final(self).path() == AudioPath::Delegated(
                    q.push(media_packet@),
                ) && r == Ok::<DecodeStatus, PeerDecodeError>(blind_status()),
                AudioPath::InProcess(a) => match parse_spec(media_packet@) {
                    None => r == Err::<DecodeStatus, PeerDecodeError>(
                        PeerDecodeError::PacketParseError,
                    ) && final(self).path() == old(self).path(),
                    Some(p) => r == Ok::<DecodeStatus, PeerDecodeError>(blind_status()) && exists|
                        f: VideoPacket,
                    | #[trigger] frame_matches(p, f) && final(self).path() == AudioPath::InProcess(
                        decode_packet_spec(a, f).0,
                    ),
                },
            },
    {
        match &mut self.decoder {
            AudioBackend::Fake(d) => d.decode(media_packet),
            AudioBackend::InProcess(a) => a.decode(media_packet),
            AudioBackend::Delegated(w) => w.decode(media_packet),
        }
    }
}

/// The state of any decode path, as plain values.
pub enum DecodePathView {
    Fake,
    /// Messages queued for a worker.
    Queue(Seq<Seq<u8>>),
    Sequencer(SequencerView),
    Adapter(AdapterView),
    Video(ThreadType, VideoPath),
    Audio(ThreadType, AudioPath),
}

/// Decoding `packet` on a path that is faked or queued for a worker.
pub open spec fn blind_effect(q: Option<Seq<Seq<u8>>>, after: Option<Seq<Seq<u8>>>, packet: Seq<u8>, r: Result<DecodeStatus, PeerDecodeError>) -> bool {
    &&& r == Ok::<DecodeStatus, PeerDecodeError>(blind_status())
    &&& match q {
        None => after.is_none(),
        Some(q) => after == Some(q.push(packet)),
    }
}

/// Decoding `packet` on a sequencer in state `m`.
pub open spec fn sequencer_effect(m: SequencerView, after: SequencerView, packet: Seq<u8>, r: Result<DecodeStatus, PeerDecodeError>) -> bool {
    match parse_spec(packet) {
        None => r == Err::<DecodeStatus, PeerDecodeError>(PeerDecodeError::PacketParseError)
            && after == m,
        Some(p) => exists|f: VideoPacket|
            #[trigger] frame_matches(p, f) && after == step(m, f) && r == Ok::<
                DecodeStatus,
                PeerDecodeError,
            >(DecodeStatus { rendered: true, blocked_on_key: after.require_key }),
    }
}

/// Decoding `packet` straight on an adapter in state `a`, with no
/// reordering.
pub open spec fn adapter_effect(a: AdapterView, after: AdapterView, packet: Seq<u8>, r: Result<DecodeStatus, PeerDecodeError>) -> bool {
    match parse_spec(packet) {
        None => r == Err::<DecodeStatus, PeerDecodeError>(PeerDecodeError::PacketParseError)
            && after == a,
        Some(p) => r == Ok::<DecodeStatus, PeerDecodeError>(blind_status()) && exists|
            f: VideoPacket,
        | #[trigger] frame_matches(p, f) && after == decode_packet_spec(a, f).0,
    }
}

/// What decoding `packet` does to a path in state `before`: it ends in
/// `after` and reports `r`.
pub open spec fn decode_effect(before: DecodePathView, after: DecodePathView, packet: Seq<u8>, r: Result<DecodeStatus, PeerDecodeError>) -> bool {
    match (before, after) {
        (DecodePathView::Fake, DecodePathView::Fake) => blind_effect(None, None, packet, r),
        (DecodePathView::Queue(q), DecodePathView::Queue(q2)) => blind_effect(Some(q), Some(q2), packet, r),
        (DecodePathView::Sequencer(m), DecodePathView::Sequencer(m2)) => sequencer_effect(m, m2, packet, r),
        (DecodePathView::Adapter(a), DecodePathView::Adapter(a2)) => adapter_effect(a, a2, packet, r),
        (DecodePathView::Video(t, v), DecodePathView::Video(t2, v2)) => t2 == t && match (v, v2) {
            (VideoPath::Fake, VideoPath::Fake) => blind_effect(None, None, packet, r),
            (VideoPath::Delegated(q), VideoPath::Delegated(q2)) => blind_effect(Some(q), Some(q2), packet, r),
            (VideoPath::InProcess(m), VideoPath::InProcess(m2)) => sequencer_effect(m, m2, packet, r),
            _ => false,
        },
        (DecodePathView::Audio(t, v), DecodePathView::Audio(t2, v2)) => t2 == t && match (v, v2) {
            (AudioPath::Fake, AudioPath::Fake) => blind_effect(None, None, packet, r),
            (AudioPath::Delegated(q), AudioPath::Delegated(q2)) => blind_effect(Some(q), Some(q2), packet, r),
            (AudioPath::InProcess(a), AudioPath::InProcess(a2)) => adapter_effect(a, a2, packet, r),
            _ => false,
        },
        _ => false,
    }
}

impl Decode for FakeDecoder {
    open spec fn ready(&self) -> bool {
        true
    }

    open spec fn path_view(&self) -> DecodePathView {
        DecodePathView::Fake
    }

    fn decode(&mut self, packet: &Vec<u8>) -> (r: Result<DecodeStatus, PeerDecodeError>) {
        FakeDecoder::decode(self, packet)
    }
}

impl Decode for WorkerDecoder {
    open spec fn ready(&self) -> bool {
        true
    }

    open spec fn path_view(&self) -> DecodePathView {
        DecodePathView::Queue(self@)
    }

    fn decode(&mut self, packet: &Vec<u8>) -> (r: Result<DecodeStatus, PeerDecodeError>) {
        WorkerDecoder::decode(self, packet)
    }
}

impl Decode for AudioWorkerDecoder {
    open spec fn ready(&self) -> bool {
        true
    }

    open spec fn path_view(&self) -> DecodePathView {
        DecodePathView::Adapter(self@)
    }

    fn decode(&mut self, packet: &Vec<u8>) -> (r: Result<DecodeStatus, PeerDecodeError>) {
        AudioWorkerDecoder::decode(self, packet)
    }
}

impl Decode for VideoWorkerDecoder {
    open spec fn ready(&self) -> bool {
        self.wf()
    }

    open spec fn path_view(&self) -> DecodePathView {
        DecodePathView::Sequencer(self@)
    }

    fn decode(&mut self, packet: &Vec<u8>) -> (r: Result<DecodeStatus, PeerDecodeError>) {
        self.decode_bytes(packet.as_slice())
    }
}

impl Decode for Video {
    open spec fn ready(&self) -> bool {
        self.wf()
    }

    open spec fn path_view(&self) -> DecodePathView {
        DecodePathView::Video(self.thread_type_spec(), self.path())
    }

    fn decode(&mut self, packet: &Vec<u8>) -> (r: Result<DecodeStatus, PeerDecodeError>) {
        Video::decode(self, packet)
    }
}

impl Decode for Audio {
    open spec fn ready(&self) -> bool {
        true
    }

    open spec fn path_view(&self) -> DecodePathView {
        DecodePathView::Audio(self.thread_type_spec(), self.path())
    }

    fn decode(&mut self, packet: &Vec<u8>) -> (r: Result<DecodeStatus, PeerDecodeError>) {
        Audio::decode(self, packet)
    }
}

} // verus!
