use vstd::prelude::*;

use crate::adapter::{decode_packet_spec, submit_spec, AdapterView, DecoderOutput, DecoderState, FrameDecoderAdapter};
use crate::frame::{DecodeStatus, FrameKind, PeerDecodeError, VideoPacket};
use crate::packet::{key_name, parse_media_packet, parse_spec, PacketFields};
use crate::reorder_buffer::{
    ascending, frame_at, has_key, insert_bounded, prune, remove_key, ReorderBuffer,
    MAX_BUFFER_SIZE,
};

verus! {

/// The sequencer's state, as plain values.
pub struct SequencerView {
    /// Last sequence number handed on for decoding.
    pub cursor: Option<u64>,
    /// Set while delta frames are ignored until the next key frame.
    pub require_key: bool,
    /// Future frames held back, ascending by sequence number.
    pub buffer: Seq<VideoPacket>,
    pub decoder: AdapterView,
}

/// The buffer keeps its order and its bound.
pub open spec fn model_wf(m: SequencerView) -> bool {
    ascending(m.buffer) && m.buffer.len() <= MAX_BUFFER_SIZE
}

/// Hands on, in order, the buffered frames that continue the run after
/// `cursor` (each taken out of the buffer), up to the first gap. Returns the
/// buffer, the cursor and the adapter after that.
pub open spec fn drain(buf: Seq<VideoPacket>, cursor: u64, dec: AdapterView) -> (
    Seq<VideoPacket>,
    u64,
    AdapterView,
)
    decreases u64::MAX - cursor,
{
    if cursor < u64::MAX && has_key(buf, cursor + 1) {
        drain(
            remove_key(buf, cursor + 1),
            (cursor + 1) as u64,
            submit_spec(dec, frame_at(buf, cursor + 1)),
        )
    } else {
        (buf, cursor, dec)
    }
}

/// The effect of delivering frame `f` to a sequencer in state `m`.
pub open spec fn step(m: SequencerView, f: VideoPacket) -> SequencerView {
    let s = f.sequence_number;
    if f.chunk_type == FrameKind::Key {
        let (dec, fault) = decode_packet_spec(m.decoder, f);
        SequencerView {
            cursor: Some(s),
            require_key: fault,
            buffer: prune(m.buffer, s as int),
            decoder: dec,
        }
    } else if m.cursor.is_none() || m.require_key {
        m
    } else {
        let c = m.cursor.unwrap();
        if s == c + 1 {
            let (dec, fault) = decode_packet_spec(m.decoder, f);
            let (buf, cur, dec2) = if fault {
                (m.buffer, s, dec)
            } else {
                drain(m.buffer, s, dec)
            };
            SequencerView {
                cursor: Some(cur),
                require_key: fault,
                buffer: prune(buf, cur as int),
                decoder: dec2,
            }
        } else {
            let (buf, cur, dec) = if has_key(m.buffer, c + 1) {
                let (b, cu, d) = drain(m.buffer, c, m.decoder);
                (prune(b, c as int), cu, d)
            } else {
                (m.buffer, c, m.decoder)
            };
            SequencerView {
                cursor: Some(cur),
                require_key: false,
                buffer: if s > c {
                    insert_bounded(buf, f)
                } else {
                    buf
                },
                decoder: dec,
            }
        }
    }
}

/// `f` is the frame that the packet record `p` carries.
pub open spec fn frame_matches(p: PacketFields, f: VideoPacket) -> bool {
    &&& f.data@ == p.data
    &&& f.chunk_type == (if p.frame_type == key_name() {
        FrameKind::Key
    } else {
        FrameKind::Delta
    })
    &&& f.timestamp_bits == p.timestamp_bits
    &&& f.duration_bits == p.duration_bits
    &&& f.sequence_number == p.sequence
}

/// A stream before its first frame, driving a configured decoder.
pub open spec fn fresh_view() -> SequencerView {
    SequencerView {
        cursor: None,
        require_key: true,
        buffer: Seq::empty(),
        decoder: AdapterView {
            state: DecoderState::Configured,
            replace_pending: false,
            output: Seq::empty(),
        },
    }
}

/// `m` after the host collected its decoder's output.
pub open spec fn collected(m: SequencerView) -> SequencerView {
    SequencerView {
        decoder: AdapterView { replace_pending: false, output: Seq::empty(), ..m.decoder },
        ..m
    }
}

/// The frame sequencer of one stream: decides for each arriving frame
/// whether it is decoded now, held back, or dropped, so that frames reach
/// the decoder in strictly increasing order.
pub struct VideoWorkerDecoder {
    buffer: ReorderBuffer,
    decoder: FrameDecoderAdapter,
    sequence: Option<u64>,
    require_key: bool,
}

impl View for VideoWorkerDecoder {
    type V = SequencerView;

    closed spec fn view(&self) -> SequencerView {
        SequencerView {
            cursor: self.sequence,
            require_key: self.require_key,
            buffer: self.buffer@,
            decoder: self.decoder@,
        }
    }
}

impl VideoWorkerDecoder {
    pub closed spec fn wf(&self) -> bool {
        self.buffer.wf()
    }

    /// A sequencer that has seen no frame yet, driving `decoder`.
    pub fn new(decoder: FrameDecoderAdapter) -> (r: Self)
        ensures
            r.wf(),
            r@.cursor.is_none(),
            r@.require_key,
            r@.buffer == Seq::<VideoPacket>::empty(),
            r@.decoder == decoder@,
    {
        VideoWorkerDecoder {
            buffer: ReorderBuffer::new(),
            decoder,
            sequence: None,
            require_key: true,
        }
    }

    /// A sequencer driving a freshly configured decoder.
    pub fn open() -> (r: Self)
        ensures
            r.wf(),
            r@ == fresh_view(),
    {
        let mut decoder = FrameDecoderAdapter::new();
        decoder.configure();
        let r = VideoWorkerDecoder::new(decoder);
        proof {
            assert(r@.buffer =~= fresh_view().buffer);
            assert(r@.decoder.output =~= fresh_view().decoder.output);
        }
        r
    }

    /// Reads one media packet from its wire encoding and delivers its frame.
    /// Malformed bytes change nothing.
    pub fn decode_bytes(&mut self, data: &[u8]) -> (r: Result<DecodeStatus, PeerDecodeError>)
        requires
            old(self).wf(),
        ensures
            final(self).wf(),
            match parse_spec(data@) {
                None => r == Err::<DecodeStatus, PeerDecodeError>(PeerDecodeError::PacketParseError)
                    && final(self)@ == old(self)@,
                Some(p) => exists|f: VideoPacket|
                    #[trigger] frame_matches(p, f) && final(self)@ == step(old(self)@, f) && r == Ok::<
                        DecodeStatus,
                        PeerDecodeError,
                    >(DecodeStatus { rendered: true, blocked_on_key: final(self)@.require_key }),
            },
    {
        match parse_media_packet(data) {
            Ok(packet) => {
                let frame = VideoPacket::from(packet);
                let ghost g = frame;
                let status = self.decode(frame);
                proof {
                    assert(frame_matches(parse_spec(data@).unwrap(), g));
                }
                Ok(status)
            },
            Err(e) => Err(e),
        }
    }

    /// A well-formed sequencer's state meets what the laws of
    /// `guarantees` ask of it.
    pub proof fn lemma_wf(&self)
        requires
            self.wf(),
        ensures
            model_wf(self@),
    {
    }

    /// Delivers one arriving frame.
    pub fn decode(&mut self, packet: VideoPacket) -> (r: DecodeStatus)
        requires
            old(self).wf(),
        ensures
            final(self).wf(),
            final(self)@ == step(old(self)@, packet),
            r == (DecodeStatus { rendered: true, blocked_on_key: final(self)@.require_key }),
    {
        let s = packet.sequence_number;
        if packet.chunk_type == FrameKind::Key {
            self.require_key = false;
            self.decode_packet(packet);
            self.sequence = Some(s);
            self.buffer.prune(s);
        } else if let Some(c) = self.sequence {
            if !self.require_key {
                if c < u64::MAX && s == c + 1 {
                    self.decode_packet(packet);
                    self.sequence = Some(s);
                    if !self.require_key {
                        self.play_queued_follow_up_frames();
                    }
                    let cur = self.cursor_value();
                    self.buffer.prune(cur);
                } else {
                    if c < u64::MAX && self.buffer.contains_key(c + 1) {
                        self.play_queued_follow_up_frames();
                        self.buffer.prune(c);
                    }
                    if s > c {
                        self.buffer.insert(packet);
                    }
                }
            }
        }
        DecodeStatus { rendered: true, blocked_on_key: self.require_key }
    }

    /// The cursor of a sequencer that has one.
    fn cursor_value(&self) -> (r: u64)
        requires
            self@.cursor.is_some(),
        ensures
            self@.cursor == Some(r),
    {
        match self.sequence {
            Some(c) => c,
            None => 0,
        }
    }

    /// Dispatches one frame to the adapter; a closed instance is replaced
    /// and the stream then waits for a key frame.
    pub fn decode_packet(&mut self, packet: VideoPacket)
        requires
            old(self).wf(),
        ensures
            final(self).wf(),
            ({
                let (dec, fault) = decode_packet_spec(old(self)@.decoder, packet);
                final(self)@ == (SequencerView {
                    require_key: old(self)@.require_key || fault,
                    decoder: dec,
                    ..old(self)@
                })
            }),
    {
        let fault = self.decoder.decode_packet(packet);
        if fault {
            self.require_key = true;
        }
    }

    /// Hands on the buffered frames that continue the run after the cursor,
    /// up to the first gap; without a cursor there is no run to continue.
    fn play_queued_follow_up_frames(&mut self)
        requires
            old(self).wf(),
        ensures
            final(self).wf(),
            old(self)@.cursor.is_none() ==> final(self)@ == old(self)@,
            old(self)@.cursor.is_some() ==> ({
                let (buf, cur, dec) = drain(
                    old(self)@.buffer,
                    old(self)@.cursor.unwrap(),
                    old(self)@.decoder,
                );
                final(self)@ == (SequencerView {
                    cursor: Some(cur),
                    buffer: buf,
                    decoder: dec,
                    ..old(self)@
                })
            }),
    {
        let ghost m0 = self@;
        let mut cur = match self.sequence {
            Some(c) => c,
            None => {
                return;
            },
        };
        loop
            invariant
                self.wf(),
                m0.cursor.is_some(),
                self@.require_key == m0.require_key,
                self@.cursor == m0.cursor,
                drain(self@.buffer, cur, self@.decoder) == drain(
                    m0.buffer,
                    m0.cursor.unwrap(),
                    m0.decoder,
                ),
            ensures
                drain(self@.buffer, cur, self@.decoder) == (self@.buffer, cur, self@.decoder),
            decreases u64::MAX - cur,
        {
            if cur == u64::MAX {
                assert(drain(self@.buffer, cur, self@.decoder) == (self@.buffer, cur, self@.decoder));
                break;
            }
            match self.buffer.take(cur + 1) {
                Some(f) => {
                    self.decoder.submit(f);
                    cur = cur + 1;
                },
                None => {
                    assert(drain(self@.buffer, cur, self@.decoder) == (self@.buffer, cur, self@.decoder));
                    break;
                },
            }
        }
        self.sequence = Some(cur);
    }

    pub fn state(&self) -> (r: DecoderState)
        ensures
            r == self@.decoder.state,
    {
        self.decoder.state()
    }

    /// Records that the decoder engine reported a fatal fault.
    pub fn report_decoder_closed(&mut self)
        requires
            old(self).wf(),
        ensures
            final(self).wf(),
            final(self)@ == (SequencerView {
                decoder: AdapterView { state: DecoderState::Closed, ..old(self)@.decoder },
                ..old(self)@
            }),
    {
        self.decoder.close();
    }

    /// Collects the frames for the decoder engine and whether the engine
    /// must first be replaced.
    pub fn take_output(&mut self) -> (r: DecoderOutput)
        requires
            old(self).wf(),
        ensures
            final(self).wf(),
            r.replace_instance == old(self)@.decoder.replace_pending,
            r.frames@ == old(self)@.decoder.output,
            final(self)@ == collected(old(self)@),
    {
        self.decoder.take_output()
    }

    /// Last sequence number handed on for decoding.
    pub fn cursor(&self) -> (r: Option<u64>)
        ensures
            r == self@.cursor,
    {
        self.sequence
    }

    pub fn require_key(&self) -> (r: bool)
        ensures
            r == self@.require_key,
    {
        self.require_key
    }

    /// Sequence numbers of the frames held back, ascending.
    pub fn buffered_sequences(&self) -> (r: Vec<u64>)
        requires
            self.wf(),
        ensures
            r@ == crate::reorder_buffer::keys_of(self@.buffer),
    {
        self.buffer.sequences()
    }
}

} // verus!
