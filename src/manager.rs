use vstd::prelude::*;

use crate::adapter::DecoderOutput;
use crate::frame::{DecodeStatus, MediaKind, PeerDecodeError, VideoPacket};
use crate::packet::parse_spec;
use crate::sequencer::{
    collected, fresh_view, frame_matches, step, SequencerView, VideoWorkerDecoder,
};

verus! {

/// One stream: the peer it comes from, its media kind and its state.
pub type StreamView = (Seq<char>, MediaKind, SequencerView);

/// Some stream of `s` belongs to `(id, kind)`.
pub open spec fn has_stream(s: Seq<StreamView>, id: Seq<char>, kind: MediaKind) -> bool {
    exists|i: int| 0 <= i < s.len() && #[trigger] s[i].0 == id && s[i].1 == kind
}

/// No two streams share a peer and a media kind.
pub open spec fn keys_unique(s: Seq<StreamView>) -> bool {
    forall|i: int, j: int|
        0 <= i < j < s.len() ==> !(#[trigger] s[i].0 == #[trigger] s[j].0 && s[i].1 == s[j].1)
}

/// The streams after `f` is delivered to the stream of `(id, kind)`, which
/// is created first where there is none.
pub open spec fn routed(s: Seq<StreamView>, id: Seq<char>, kind: MediaKind, f: VideoPacket) -> Seq<
    StreamView,
> {
    if has_stream(s, id, kind) {
        s.map_values(
            |e: StreamView|
                if e.0 == id && e.1 == kind {
                    (e.0, e.1, step(e.2, f))
                } else {
                    e
                },
        )
    } else {
        s.push((id, kind, step(fresh_view(), f)))
    }
}

struct PeerStream {
    peer_id: String,
    media_kind: MediaKind,
    sequencer: VideoWorkerDecoder,
}

impl PeerStream {
    spec fn view(&self) -> StreamView {
        (self.peer_id@, self.media_kind, self.sequencer@)
    }
}

/// Owns one sequencer per peer and media kind, created on the first packet
/// of that stream.
pub struct PeerDecodeManager {
    streams: Vec<PeerStream>,
}

impl View for PeerDecodeManager {
    type V = Seq<StreamView>;

    closed spec fn view(&self) -> Seq<StreamView> {
        self.streams@.map_values(|e: PeerStream| e.view())
    }
}

impl PeerDecodeManager {
    pub closed spec fn wf(&self) -> bool {
        &&& keys_unique(self@)
        &&& forall|i: int| 0 <= i < self.streams@.len() ==> #[trigger] self.streams@[i].sequencer.wf()
    }

    pub fn new() -> (r: Self)
        ensures
            r.wf(),
            r@ == Seq::<StreamView>::empty(),
    {
        let r = PeerDecodeManager { streams: Vec::new() };
        proof {
            assert(r@ =~= Seq::<StreamView>::empty());
        }
        r
    }

    pub fn stream_count(&self) -> (r: usize)
        ensures
            r == self@.len(),
    {
        self.streams.len()
    }

    fn find(&self, peer_id: &String, media_kind: MediaKind) -> (r: Option<usize>)
        ensures
            match r {
                Some(i) => i < self@.len() && self@[i as int].0 == peer_id@ && self@[i as int].1
                    == media_kind,
                None => !has_stream(self@, peer_id@, media_kind),
            },
    {
        let mut i: usize = 0;
        while i < self.streams.len()
            invariant
                0 <= i <= self@.len(),
                self@.len() == self.streams@.len(),
                forall|j: int| 0 <= j < i ==> !(#[trigger] self@[j].0 == peer_id@ && self@[j].1 == media_kind),
            decreases self@.len() - i,
        {
            if self.streams[i].peer_id == *peer_id && self.streams[i].media_kind == media_kind {
                return Some(i);
            }
            i = i + 1;
        }
        None
    }

    /// Reads one packet of the stream `(peer_id, media_kind)` and hands its
    /// frame to that stream, creating the stream first where there is none.
    /// Malformed bytes are refused and change nothing.
    pub fn route(&mut self, peer_id: &String, media_kind: MediaKind, raw: &[u8]) -> (r: Result<
        DecodeStatus,
        PeerDecodeError,
    >)
        requires
            old(self).wf(),
        ensures
            final(self).wf(),
            match parse_spec(raw@) {
                None => r == Err::<DecodeStatus, PeerDecodeError>(PeerDecodeError::PacketParseError)
                    && final(self)@ == old(self)@,
                Some(p) => exists|f: VideoPacket|
                    #[trigger] frame_matches(p, f) && final(self)@ == routed(
                        old(self)@,
                        peer_id@,
                        media_kind,
                        f,
                    ) && (exists|i: int|
                        0 <= i < final(self)@.len() && final(self)@[i].0 == peer_id@
                            && final(self)@[i].1 == media_kind && r == Ok::<
                            DecodeStatus,
                            PeerDecodeError,
                        >(
                            DecodeStatus {
                                rendered: true,
                                blocked_on_key: #[trigger] final(self)@[i].2.require_key,
                            },
                        )),
            },
    {
        let ghost s0 = self@;
        match crate::packet::parse_media_packet(raw) {
            Err(e) => Err(e),
            Ok(packet) => {
                let frame = VideoPacket::from(packet);
                let ghost g = frame;
                proof {
                    assert(frame_matches(parse_spec(raw@).unwrap(), g));
                }
                match self.find(peer_id, media_kind) {
                    Some(i) => {
                        let mut e = self.streams.remove(i);
                        let status = e.sequencer.decode(frame);
                        self.streams.insert(i, e);
                        proof {
                            let t = routed(s0, peer_id@, media_kind, g);
                            assert(has_stream(s0, peer_id@, media_kind));
                            assert forall|j: int| 0 <= j < s0.len() implies #[trigger] self@[j]
                                == t[j] by {
                                if j != i {
                                    assert(self.streams@[j] == old(self).streams@[j]);
                                    assert(!(s0[j].0 == peer_id@ && s0[j].1 == media_kind));
                                }
                            }
                            assert(self@ =~= t);
                            assert forall|j: int| 0 <= j < self.streams@.len() implies #[trigger] self.streams@[j].sequencer.wf() by {
                                if j != i {
                                    assert(self.streams@[j] == old(self).streams@[j]);
                                }
                            }
                            assert(self@[i as int].2.require_key == status.blocked_on_key);
                        }
                        Ok(status)
                    },
                    None => {
                        let mut sequencer = VideoWorkerDecoder::open();
                        let status = sequencer.decode(frame);
                        let e = PeerStream { peer_id: peer_id.clone(), media_kind, sequencer };
                        self.streams.push(e);
                        proof {
                            assert(self@ =~= routed(s0, peer_id@, media_kind, g));
                            let n = s0.len() as int;
                            assert(self@[n].2.require_key == status.blocked_on_key);
                            assert forall|a: int, b: int| 0 <= a < b < self@.len() implies !(
                            #[trigger] self@[a].0 == #[trigger] self@[b].0 && self@[a].1 == self@[b].1) by {
                                if b == n {
                                    assert(s0[a] == self@[a]);
                                }
                            }
                        }
                        Ok(status)
                    },
                }
            },
        }
    }

    /// Drops every stream of `peer_id`, buffered frames included.
    pub fn remove_peer(&mut self, peer_id: &String)
        requires
            old(self).wf(),
        ensures
            final(self).wf(),
            final(self)@ == old(self)@.filter(|e: StreamView| e.0 != peer_id@),
    {
        let ghost s0 = self@;
        let ghost pred = |e: StreamView| e.0 != peer_id@;
        let mut i: usize = 0;
        let ghost mut j: int = 0;
        while i < self.streams.len()
            invariant
                0 <= i <= self@.len(),
                0 <= j <= s0.len(),
                self@.len() == self.streams@.len(),
                self@.len() - i == s0.len() - j,
                keys_unique(self@),
                self@.subrange(0, i as int) == s0.subrange(0, j).filter(pred),
                self@.subrange(i as int, self@.len() as int) == s0.subrange(j, s0.len() as int),
                forall|k: int| 0 <= k < self.streams@.len() ==> #[trigger] self.streams@[k].sequencer.wf(),
                forall|k: int| 0 <= k < i ==> #[trigger] self@[k] == s0.subrange(0, j).filter(pred)[k],
                pred == (|e: StreamView| e.0 != peer_id@),
            decreases self@.len() - i,
        {
            let ghost before = self@;
            let ghost x = s0[j];
            proof {
                assert(before[i as int] == before.subrange(i as int, before.len() as int)[0]);
                assert(s0[j] == s0.subrange(j, s0.len() as int)[0]);
                assert(x == before[i as int]);
                assert(s0.subrange(0, j + 1) =~= s0.subrange(0, j).push(x));
                s0.subrange(0, j).lemma_filter_push(x, pred);
            }
            if self.streams[i].peer_id == *peer_id {
                self.streams.remove(i);
                proof {
                    j = j + 1;
                    assert(self@.subrange(0, i as int) =~= before.subrange(0, i as int));
                    assert(self@ =~= before.remove(i as int));
                    assert forall|a: int, b: int| 0 <= a < b < self@.len() implies !(
                    #[trigger] self@[a].0 == #[trigger] self@[b].0 && self@[a].1 == self@[b].1) by {
                        let a2 = if a < i { a } else { a + 1 };
                        let b2 = if b < i { b } else { b + 1 };
                        assert(self@[a] == before[a2] && self@[b] == before[b2]);
                    }
                    let jo = j - 1;
                    assert forall|k: int| 0 <= k < self@.len() - i implies #[trigger] self@.subrange(
                        i as int,
                        self@.len() as int,
                    )[k] == s0.subrange(j, s0.len() as int)[k] by {
                        assert(self@[i + k] == before[i + k + 1]);
                        assert(before[i + k + 1] == before.subrange(i as int, before.len() as int)[k + 1]);
                        assert(s0.subrange(jo, s0.len() as int)[k + 1] == s0[jo + k + 1]);
                    }
                    assert(self@.subrange(i as int, self@.len() as int) =~= s0.subrange(j, s0.len() as int));
                }
            } else {
                i = i + 1;
                proof {
                    j = j + 1;
                    assert(self@.subrange(0, i as int) =~= before.subrange(0, i as int - 1).push(x));
                    let jo = j - 1;
                    assert forall|k: int| 0 <= k < self@.len() - i implies #[trigger] self@.subrange(
                        i as int,
                        self@.len() as int,
                    )[k] == s0.subrange(j, s0.len() as int)[k] by {
                        assert(before[i + k] == before.subrange(i - 1, before.len() as int)[k + 1]);
                        assert(s0.subrange(jo, s0.len() as int)[k + 1] == s0[jo + k + 1]);
                    }
                    assert(self@.subrange(i as int, self@.len() as int) =~= s0.subrange(j, s0.len() as int));
                }
            }
        }
        proof {
            assert(s0.subrange(0, j) =~= s0);
            assert(self@ =~= self@.subrange(0, i as int));
        }
    }

    /// Collects what the decoder of the stream `(peer_id, media_kind)` must
    /// be given, if that stream exists.
    pub fn take_output(&mut self, peer_id: &String, media_kind: MediaKind) -> (r: Option<
        DecoderOutput,
    >)
        requires
            old(self).wf(),
        ensures
            final(self).wf(),
            r.is_some() == has_stream(old(self)@, peer_id@, media_kind),
            final(self)@ == old(self)@.map_values(
                |e: StreamView|
                    if e.0 == peer_id@ && e.1 == media_kind {
                        (e.0, e.1, collected(e.2))
                    } else {
                        e
                    },
            ),
            forall|i: int|
                0 <= i < old(self)@.len() && #[trigger] old(self)@[i].0 == peer_id@
                    && old(self)@[i].1 == media_kind ==> r.unwrap().frames@ == old(self)@[i].2.decoder.output
                    && r.unwrap().replace_instance == old(self)@[i].2.decoder.replace_pending,
    {
        match self.find(peer_id, media_kind) {
            Some(i) => {
                let mut e = self.streams.remove(i);
                let out = e.sequencer.take_output();
                self.streams.insert(i, e);
                proof {
                    let s0 = old(self)@;
                    assert forall|j: int| 0 <= j < s0.len() implies #[trigger] self@[j] == (if s0[j].0
                        == peer_id@ && s0[j].1 == media_kind {
                        (s0[j].0, s0[j].1, collected(s0[j].2))
                    } else {
                        s0[j]
                    }) by {
                        if j != i {
                            assert(self.streams@[j] == old(self).streams@[j]);
                            assert(!(s0[j].0 == peer_id@ && s0[j].1 == media_kind));
                        }
                    }
                    assert(self@ =~= s0.map_values(
                        |e: StreamView|
                            if e.0 == peer_id@ && e.1 == media_kind {
                                (e.0, e.1, collected(e.2))
                            } else {
                                e
                            },
                    ));
                    assert forall|j: int|
                        0 <= j < s0.len() && #[trigger] s0[j].0 == peer_id@ && s0[j].1 == media_kind
                            implies j == i by {
                        if j != i {
                            assert(!(s0[j].0 == s0[i as int].0 && s0[j].1 == s0[i as int].1));
                        }
                    }
                    assert forall|a: int, b: int| 0 <= a < b < self@.len() implies !(
                    #[trigger] self@[a].0 == #[trigger] self@[b].0 && self@[a].1 == self@[b].1) by {
                        assert(self@[a].0 == old(self)@[a].0 && self@[a].1 == old(self)@[a].1);
                        assert(self@[b].0 == old(self)@[b].0 && self@[b].1 == old(self)@[b].1);
                    }
                    assert forall|j: int| 0 <= j < self.streams@.len() implies #[trigger] self.streams@[j].sequencer.wf() by {
                        if j != i {
                            assert(self.streams@[j] == old(self).streams@[j]);
                        }
                    }
                }
                Some(out)
            },
            None => {
                proof {
                    assert(self@ =~= old(self)@.map_values(
                        |e: StreamView|
                            if e.0 == peer_id@ && e.1 == media_kind {
                                (e.0, e.1, collected(e.2))
                            } else {
                                e
                            },
                    ));
                }
                None
            },
        }
    }
}

} // verus!
