//! What holds of a stream over any series of arriving frames.
use vstd::prelude::*;

use crate::adapter::{decode_packet_spec, submit_spec, DecoderState};
use crate::frame::{FrameKind, VideoPacket};
use crate::reorder_buffer::{
    ascending, frame_at, has_key, insert_bounded, lemma_has_key, lemma_insert_bounded,
    lemma_lower_bound, lower_bound, prune, remove_key, MAX_BUFFER_SIZE,
};
use crate::sequencer::{drain, model_wf, step, SequencerView};

verus! {

/// The state after delivering the frames of `fs` in order.
pub open spec fn run(m: SequencerView, fs: Seq<VideoPacket>) -> SequencerView
    decreases fs.len(),
{
    if fs.len() == 0 {
        m
    } else {
        run(step(m, fs[0]), fs.drop_first())
    }
}

/// A key frame that arrives at or below the cursor.
pub open spec fn stale_key(m: SequencerView, f: VideoPacket) -> bool {
    f.chunk_type == FrameKind::Key && m.cursor.is_some() && f.sequence_number <= m.cursor.unwrap()
}

/// No frame of `fs` is a key frame that arrives at or below the cursor of
/// its time.
pub open spec fn no_stale_keys(m: SequencerView, fs: Seq<VideoPacket>) -> bool
    decreases fs.len(),
{
    fs.len() == 0 || (!stale_key(m, fs[0]) && no_stale_keys(step(m, fs[0]), fs.drop_first()))
}

/// The cursor as a number, below every sequence number while there is none.
pub open spec fn cursor_floor(m: SequencerView) -> int {
    match m.cursor {
        Some(c) => c as int,
        None => -1,
    }
}

/// Strictly ascending, each numbered above `lo` and at most `hi`.
pub open spec fn ascending_within(s: Seq<VideoPacket>, lo: int, hi: int) -> bool {
    &&& ascending(s)
    &&& forall|i: int| 0 <= i < s.len() ==> lo < #[trigger] s[i].sequence_number <= hi
}

proof fn lemma_remove_key(s: Seq<VideoPacket>, k: int)
    requires
        ascending(s),
        has_key(s, k),
    ensures
        ascending(remove_key(s, k)),
        remove_key(s, k).len() == s.len() - 1,
        frame_at(s, k).sequence_number == k,
{
    lemma_lower_bound(s, k);
    lemma_has_key(s, k);
    let p = lower_bound(s, k);
    let r = remove_key(s, k);
    assert forall|i: int, j: int| 0 <= i < j < r.len() implies #[trigger] r[i].sequence_number
        < #[trigger] r[j].sequence_number by {
        let a = if i < p { i } else { i + 1 };
        let b = if j < p { j } else { j + 1 };
        assert(r[i] == s[a] && r[j] == s[b]);
    }
}

proof fn lemma_prune(s: Seq<VideoPacket>, t: int)
    requires
        ascending(s),
    ensures
        ascending(prune(s, t)),
        prune(s, t).len() <= s.len(),
        forall|i: int| 0 <= i < prune(s, t).len() ==> #[trigger] prune(s, t)[i].sequence_number >= t,
        forall|i: int|
            0 <= i < s.len() && #[trigger] s[i].sequence_number >= t ==> prune(s, t).contains(s[i]),
{
    lemma_lower_bound(s, t);
    let p = lower_bound(s, t);
    let r = prune(s, t);
    assert forall|i: int| 0 <= i < r.len() implies #[trigger] r[i].sequence_number >= t by {
        assert(r[i] == s[p + i]);
    }
    assert forall|i: int, j: int| 0 <= i < j < r.len() implies #[trigger] r[i].sequence_number
        < #[trigger] r[j].sequence_number by {
        assert(r[i] == s[p + i] && r[j] == s[p + j]);
    }
    assert forall|i: int| 0 <= i < s.len() && #[trigger] s[i].sequence_number >= t implies r.contains(
        s[i],
    ) by {
        assert(i >= p);
        assert(r[i - p] == s[i]);
    }
}

/// Taking out a stored frame loses exactly its key, and adds no frame.
proof fn lemma_remove_key_keys(s: Seq<VideoPacket>, k: int)
    requires
        ascending(s),
        has_key(s, k),
    ensures
        forall|j: int| #[trigger] has_key(remove_key(s, k), j) <==> (has_key(s, j) && j != k),
        forall|x: VideoPacket| #[trigger] remove_key(s, k).contains(x) ==> s.contains(x),
{
    lemma_lower_bound(s, k);
    lemma_has_key(s, k);
    let p = lower_bound(s, k);
    let r = remove_key(s, k);
    assert forall|j: int| #[trigger] has_key(r, j) <==> (has_key(s, j) && j != k) by {
        if has_key(r, j) {
            let i = choose|i: int| 0 <= i < r.len() && #[trigger] r[i].sequence_number == j;
            let i2 = if i < p { i } else { i + 1 };
            assert(r[i] == s[i2]);
            if i < p {
                assert(s[i].sequence_number < s[p].sequence_number);
            } else {
                assert(s[p].sequence_number < s[i + 1].sequence_number);
            }
        }
        if has_key(s, j) && j != k {
            let i = choose|i: int| 0 <= i < s.len() && #[trigger] s[i].sequence_number == j;
            if i < p {
                assert(r[i] == s[i]);
            } else {
                assert(i != p);
                assert(r[i - 1] == s[i]);
            }
        }
    }
    assert forall|x: VideoPacket| #[trigger] r.contains(x) implies s.contains(x) by {
        let i = choose|i: int| 0 <= i < r.len() && r[i] == x;
        if i < p {
            assert(r[i] == s[i]);
        } else {
            assert(r[i] == s[i + 1]);
        }
    }
}

/// The drain hands out exactly the buffered run after the cursor: draining
/// from cursor `c` moves the cursor to `c'` where `c+1, ..., c'` are all
/// buffered and `c'+1` is not (or `c'` is the largest sequence number); the
/// frames buffered under `c+1, ..., c'` go to a configured decoder in that
/// order (to any other, nowhere), and the buffer stays ordered.
pub proof fn lemma_drain(buf: Seq<VideoPacket>, c: u64, dec: crate::adapter::AdapterView) -> (new: Seq<
    VideoPacket,
>)
    requires
        ascending(buf),
    ensures
        ascending(drain(buf, c, dec).0),
        drain(buf, c, dec).0.len() <= buf.len(),
        drain(buf, c, dec).1 >= c,
        drain(buf, c, dec).2.state == dec.state,
        drain(buf, c, dec).2.replace_pending == dec.replace_pending,
        drain(buf, c, dec).2.output == dec.output + new,
        ascending_within(new, c as int, drain(buf, c, dec).1 as int),
        forall|k: int| c < k <= drain(buf, c, dec).1 ==> #[trigger] has_key(buf, k),
        drain(buf, c, dec).1 == u64::MAX || !has_key(buf, drain(buf, c, dec).1 + 1),
        dec.state == DecoderState::Configured ==> new.len() == drain(buf, c, dec).1 - c,
        dec.state != DecoderState::Configured ==> new.len() == 0,
        forall|i: int| 0 <= i < new.len() ==> #[trigger] new[i].sequence_number == c + 1 + i,
        forall|i: int| 0 <= i < new.len() ==> buf.contains(#[trigger] new[i]),
    decreases u64::MAX - c,
{
    if c < u64::MAX && has_key(buf, c + 1) {
        let f = frame_at(buf, c + 1);
        lemma_remove_key(buf, c + 1);
        lemma_remove_key_keys(buf, c + 1);
        lemma_lower_bound(buf, c + 1);
        lemma_has_key(buf, c + 1);
        let b1 = remove_key(buf, c + 1);
        let d1 = submit_spec(dec, f);
        let rest = lemma_drain(b1, (c + 1) as u64, d1);
        let c2 = drain(buf, c, dec).1;
        assert(buf.contains(f));
        assert forall|k: int| c < k <= c2 implies #[trigger] has_key(buf, k) by {
            if k > c + 1 {
                assert(has_key(b1, k));
            }
        }
        if c2 < u64::MAX {
            assert(!has_key(b1, c2 + 1));
        }
        assert forall|i: int| 0 <= i < rest.len() implies buf.contains(#[trigger] rest[i]) by {
            assert(b1.contains(rest[i]));
        }
        if dec.state == DecoderState::Configured {
            let new = seq![f] + rest;
            assert(d1.output + rest =~= dec.output + new);
            assert forall|i: int, j: int| 0 <= i < j < new.len() implies #[trigger] new[i].sequence_number
                < #[trigger] new[j].sequence_number by {
                if i > 0 {
                    assert(new[i] == rest[i - 1]);
                }
                assert(new[j] == rest[j - 1]);
            }
            assert forall|i: int| 0 <= i < new.len() implies c < #[trigger] new[i].sequence_number
                <= c2 by {
                if i > 0 {
                    assert(new[i] == rest[i - 1]);
                }
            }
            assert forall|i: int| 0 <= i < new.len() implies #[trigger] new[i].sequence_number == c
                + 1 + i by {
                if i > 0 {
                    assert(new[i] == rest[i - 1]);
                }
            }
            assert forall|i: int| 0 <= i < new.len() implies buf.contains(#[trigger] new[i]) by {
                if i > 0 {
                    assert(new[i] == rest[i - 1]);
                }
            }
            new
        } else {
            rest
        }
    } else {
        assert(dec.output + Seq::<VideoPacket>::empty() =~= dec.output);
        Seq::empty()
    }
}

/// One arriving frame (other than a stale key frame) keeps the buffer's
/// order and bound, never moves the cursor back, and hands on a strictly
/// ascending run of frames numbered above the old cursor and up to the new.
pub proof fn lemma_step_forwards_in_order(m: SequencerView, f: VideoPacket) -> (new: Seq<
    VideoPacket,
>)
    requires
        model_wf(m),
        !stale_key(m, f),
    ensures
        model_wf(step(m, f)),
        cursor_floor(m) <= cursor_floor(step(m, f)),
        step(m, f).decoder.output == m.decoder.output + new,
        ascending_within(new, cursor_floor(m), cursor_floor(step(m, f))),
{
    let s = f.sequence_number;
    let r = step(m, f);
    if f.chunk_type == FrameKind::Key {
        lemma_prune(m.buffer, s as int);
        let (dec, fault) = decode_packet_spec(m.decoder, f);
        if m.decoder.state == DecoderState::Configured {
            assert(dec.output == m.decoder.output + seq![f]);
            seq![f]
        } else {
            assert(dec.output =~= m.decoder.output + Seq::<VideoPacket>::empty());
            Seq::empty()
        }
    } else if m.cursor.is_none() || m.require_key {
        assert(m.decoder.output =~= m.decoder.output + Seq::<VideoPacket>::empty());
        Seq::empty()
    } else {
        let c = m.cursor.unwrap();
        if s == c + 1 && m.decoder.state == DecoderState::Closed {
            lemma_prune(m.buffer, s as int);
            assert(r.decoder.output =~= m.decoder.output + Seq::<VideoPacket>::empty());
            Seq::empty()
        } else if s == c + 1 {
            let (dec, fault) = decode_packet_spec(m.decoder, f);
            let rest = lemma_drain(m.buffer, s, dec);
            let (buf, cur, dec2) = drain(m.buffer, s, dec);
            lemma_prune(buf, cur as int);
            if m.decoder.state == DecoderState::Configured {
                let new = seq![f] + rest;
                assert(dec.output + rest =~= m.decoder.output + new);
                assert forall|i: int, j: int| 0 <= i < j < new.len() implies #[trigger] new[i].sequence_number
                    < #[trigger] new[j].sequence_number by {
                    if i > 0 {
                        assert(new[i] == rest[i - 1]);
                    }
                    assert(new[j] == rest[j - 1]);
                }
                assert forall|i: int| 0 <= i < new.len() implies c < #[trigger] new[i].sequence_number
                    <= cur by {
                    if i > 0 {
                        assert(new[i] == rest[i - 1]);
                    }
                }
                new
            } else {
                assert forall|i: int| 0 <= i < rest.len() implies c < #[trigger] rest[i].sequence_number
                    <= cur by {
                }
                rest
            }
        } else {
            if has_key(m.buffer, c + 1) {
                let rest = lemma_drain(m.buffer, c, m.decoder);
                let (b, cu, d) = drain(m.buffer, c, m.decoder);
                lemma_prune(b, c as int);
                if s > c {
                    lemma_insert_bounded(prune(b, c as int), f);
                }
                rest
            } else {
                if s > c {
                    lemma_insert_bounded(m.buffer, f);
                }
                assert(m.decoder.output =~= m.decoder.output + Seq::<VideoPacket>::empty());
                Seq::empty()
            }
        }
    }
}

/// Monotonic forwarding: over any series of arriving frames in which no key
/// frame arrives at or below the cursor of its time, the frames handed to the
/// decoder are strictly ascending in sequence number (so none repeats), and
/// all lie above the cursor the series started from.
pub proof fn lemma_monotonic_forwarding(m: SequencerView, fs: Seq<VideoPacket>) -> (new: Seq<
    VideoPacket,
>)
    requires
        model_wf(m),
        no_stale_keys(m, fs),
    ensures
        model_wf(run(m, fs)),
        run(m, fs).decoder.output == m.decoder.output + new,
        ascending_within(new, cursor_floor(m), cursor_floor(run(m, fs))),
        cursor_floor(m) <= cursor_floor(run(m, fs)),
    decreases fs.len(),
{
    if fs.len() == 0 {
        assert(m.decoder.output =~= m.decoder.output + Seq::<VideoPacket>::empty());
        Seq::empty()
    } else {
        let m1 = step(m, fs[0]);
        let first = lemma_step_forwards_in_order(m, fs[0]);
        let rest = lemma_monotonic_forwarding(m1, fs.drop_first());
        let new = first + rest;
        assert(m.decoder.output + first + rest =~= m.decoder.output + new);
        let hi = cursor_floor(run(m, fs));
        assert forall|i: int, j: int| 0 <= i < j < new.len() implies #[trigger] new[i].sequence_number
            < #[trigger] new[j].sequence_number by {
            if j < first.len() {
            } else if i >= first.len() {
                assert(new[i] == rest[i - first.len()]);
                assert(new[j] == rest[j - first.len()]);
            } else {
                assert(new[i] == first[i]);
                assert(new[j] == rest[j - first.len()]);
            }
        }
        assert forall|i: int| 0 <= i < new.len() implies cursor_floor(m) < #[trigger] new[
            i
        ].sequence_number <= hi by {
            if i < first.len() {
                assert(new[i] == first[i]);
            } else {
                assert(new[i] == rest[i - first.len()]);
            }
        }
        new
    }
}

/// Key-frame reset: after a key frame numbered `K`, every buffered frame is
/// numbered `K` or above, and each buffered frame that was is kept.
pub proof fn lemma_key_frame_reset(m: SequencerView, f: VideoPacket)
    requires
        model_wf(m),
        f.chunk_type == FrameKind::Key,
    ensures
        forall|i: int|
            0 <= i < step(m, f).buffer.len() ==> #[trigger] step(m, f).buffer[i].sequence_number
                >= f.sequence_number,
        forall|i: int|
            0 <= i < m.buffer.len() && #[trigger] m.buffer[i].sequence_number >= f.sequence_number
                ==> step(m, f).buffer.contains(m.buffer[i]),
        step(m, f).cursor == Some(f.sequence_number),
{
    lemma_prune(m.buffer, f.sequence_number as int);
}

/// Idempotence on stale input: a delta frame at or below the cursor changes
/// nothing, unless the frame right after the cursor is buffered and the
/// stream is not waiting for a key frame (that frame is then drained first).
pub proof fn lemma_stale_delta_ignored(m: SequencerView, f: VideoPacket)
    requires
        model_wf(m),
        f.chunk_type == FrameKind::Delta,
        m.cursor.is_some(),
        f.sequence_number <= m.cursor.unwrap(),
        m.require_key || !has_key(m.buffer, m.cursor.unwrap() + 1),
    ensures
        step(m, f) == m,
{
}

/// Gap blocking: while a key frame is awaited, delta frames change nothing.
pub proof fn lemma_gap_blocking(m: SequencerView, fs: Seq<VideoPacket>)
    requires
        m.require_key,
        forall|i: int| 0 <= i < fs.len() ==> #[trigger] fs[i].chunk_type == FrameKind::Delta,
    ensures
        run(m, fs) == m,
    decreases fs.len(),
{
    if fs.len() > 0 {
        assert(step(m, fs[0]) == m);
        let rest = fs.drop_first();
        assert forall|i: int| 0 <= i < rest.len() implies #[trigger] rest[i].chunk_type
            == FrameKind::Delta by {
            assert(rest[i] == fs[i + 1]);
        }
        lemma_gap_blocking(m, rest);
    }
}

/// No frame reaches the decoder while the stream waits for a key frame: a
/// delivery that leaves it waiting (a delta while waiting, or any frame that
/// finds the decoder closed) hands nothing on, so buffered delta frames are
/// never drained into a replacement instance.
pub proof fn lemma_waiting_forwards_nothing(m: SequencerView, f: VideoPacket)
    ensures
        step(m, f).require_key ==> step(m, f).decoder.output == m.decoder.output,
{
}

/// A key frame ends the wait for one, unless it finds the decoder closed
/// (the instance is then replaced and the wait goes on); the frame right
/// after it is then handed on at once.
pub proof fn lemma_key_frame_resumes(m: SequencerView, k: VideoPacket, d: VideoPacket)
    requires
        model_wf(m),
        k.chunk_type == FrameKind::Key,
        m.decoder.state == DecoderState::Configured,
        d.chunk_type == FrameKind::Delta,
        d.sequence_number == k.sequence_number + 1,
    ensures
        !step(m, k).require_key,
        step(m, k).cursor == Some(k.sequence_number),
        step(step(m, k), d).decoder.output.subrange(0, m.decoder.output.len() + 2int) == m.decoder.output.push(
            k,
        ).push(d),
        cursor_floor(step(step(m, k), d)) >= d.sequence_number,
{
    let m1 = step(m, k);
    lemma_prune(m.buffer, k.sequence_number as int);
    let (dec, fault) = decode_packet_spec(m1.decoder, d);
    let rest = lemma_drain(m1.buffer, d.sequence_number, dec);
    assert(step(m1, d).decoder.output =~= m.decoder.output.push(k).push(d) + rest);
    assert(step(m1, d).decoder.output.subrange(0, m.decoder.output.len() + 2int) =~= m.decoder.output.push(
        k,
    ).push(d));
}

/// Recovery from a decoder fault, from any state: the frame right after the
/// cursor finds the decoder closed, so the instance is replaced, nothing is
/// handed on (buffered frames stay put) and the stream waits for a key
/// frame; the delta frames that follow change nothing; the next key frame,
/// given the replacement still configured, ends the wait and is decoded.
pub proof fn lemma_fault_recovery(
    m: SequencerView,
    d: VideoPacket,
    deltas: Seq<VideoPacket>,
    k: VideoPacket,
)
    requires
        model_wf(m),
        !m.require_key,
        m.cursor.is_some(),
        m.decoder.state == DecoderState::Closed,
        d.chunk_type == FrameKind::Delta,
        d.sequence_number == m.cursor.unwrap() + 1,
        forall|i: int| 0 <= i < deltas.len() ==> #[trigger] deltas[i].chunk_type == FrameKind::Delta,
        k.chunk_type == FrameKind::Key,
    ensures
        step(m, d).require_key,
        step(m, d).decoder.replace_pending,
        step(m, d).decoder.state == DecoderState::Configured,
        step(m, d).decoder.output == m.decoder.output,
        step(m, d).cursor == Some(d.sequence_number),
        run(step(m, d), deltas) == step(m, d),
        !step(step(m, d), k).require_key,
        step(step(m, d), k).cursor == Some(k.sequence_number),
        step(step(m, d), k).decoder.output == m.decoder.output.push(k),
{
    lemma_prune(m.buffer, d.sequence_number as int);
    lemma_gap_blocking(step(m, d), deltas);
}

/// A full buffer and one more future frame: the oldest buffered frame is
/// evicted, the new one is kept, and the buffer stays at its bound.
pub proof fn lemma_overflow_evicts_oldest(m: SequencerView, f: VideoPacket)
    requires
        model_wf(m),
        m.buffer.len() == MAX_BUFFER_SIZE,
        !m.require_key,
        m.cursor.is_some(),
        f.chunk_type == FrameKind::Delta,
        f.sequence_number > m.cursor.unwrap() + 1,
        !has_key(m.buffer, m.cursor.unwrap() + 1),
        !has_key(m.buffer, f.sequence_number as int),
    ensures
        step(m, f).buffer == insert_bounded(m.buffer, f),
        step(m, f).buffer.len() == MAX_BUFFER_SIZE,
        has_key(step(m, f).buffer, f.sequence_number as int),
        !has_key(step(m, f).buffer, m.buffer[0].sequence_number as int) || m.buffer[0].sequence_number
            == f.sequence_number,
        forall|i: int| 1 <= i < m.buffer.len() ==> #[trigger] step(m, f).buffer.contains(m.buffer[i]),
        step(m, f).cursor == m.cursor,
        step(m, f).decoder == m.decoder,
{
    let s = m.buffer.drop_first();
    let k = f.sequence_number as int;
    assert(ascending(s)) by {
        assert forall|i: int, j: int| 0 <= i < j < s.len() implies #[trigger] s[i].sequence_number
            < #[trigger] s[j].sequence_number by {
            assert(s[i] == m.buffer[i + 1] && s[j] == m.buffer[j + 1]);
        }
    }
    assert(!has_key(s, k)) by {
        if has_key(s, k) {
            let i = choose|i: int| 0 <= i < s.len() && #[trigger] s[i].sequence_number == k;
            assert(m.buffer[i + 1].sequence_number == k);
        }
    }
    lemma_insert_bounded(m.buffer, f);
    lemma_lower_bound(s, k);
    let p = lower_bound(s, k);
    let r = s.insert(p, f);
    assert(r == step(m, f).buffer);
    assert forall|i: int| 1 <= i < m.buffer.len() implies #[trigger] r.contains(m.buffer[i]) by {
        if i - 1 < p {
            assert(r[i - 1] == m.buffer[i]);
        } else {
            assert(r[i] == m.buffer[i]);
        }
    }
    let k0 = m.buffer[0].sequence_number as int;
    if has_key(r, k0) && k0 != k {
        let j = choose|j: int| 0 <= j < r.len() && #[trigger] r[j].sequence_number == k0;
        if j < p {
            assert(r[j] == s[j]);
            assert(m.buffer[j + 1].sequence_number > k0);
        } else if j > p {
            assert(r[j] == s[j - 1]);
            assert(m.buffer[j].sequence_number > k0);
        }
    }
}

} // verus!
