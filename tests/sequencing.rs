use videocall_client::{
    DecodeStatus, DecoderState, FrameDecoderAdapter, FrameKind, VideoPacket, VideoWorkerDecoder,
    MAX_BUFFER_SIZE,
};

fn frame(sequence: u64, kind: FrameKind) -> VideoPacket {
    VideoPacket {
        data: vec![sequence as u8, 0xAB],
        chunk_type: kind,
        timestamp_bits: ((sequence * 33_000) as f64).to_bits(),
        duration_bits: 33_000f64.to_bits(),
        sequence_number: sequence,
    }
}

fn key(sequence: u64) -> VideoPacket {
    frame(sequence, FrameKind::Key)
}

fn delta(sequence: u64) -> VideoPacket {
    frame(sequence, FrameKind::Delta)
}

fn configured() -> VideoWorkerDecoder {
    let mut adapter = FrameDecoderAdapter::new();
    adapter.configure();
    VideoWorkerDecoder::new(adapter)
}

fn decoded(s: &mut VideoWorkerDecoder) -> Vec<u64> {
    s.take_output().frames.iter().map(|f| f.sequence_number).collect()
}

#[test]
fn in_order_delivery_decodes_each_frame() {
    let mut s = configured();
    s.decode(key(1));
    s.decode(delta(2));
    s.decode(delta(3));
    assert_eq!(decoded(&mut s), vec![1, 2, 3]);
    assert_eq!(s.cursor(), Some(3));
    assert!(s.buffered_sequences().is_empty());
}

#[test]
fn reordered_frame_fills_the_gap() {
    let mut s = configured();
    s.decode(key(1));
    assert_eq!(decoded(&mut s), vec![1]);
    s.decode(delta(3));
    assert_eq!(decoded(&mut s), Vec::<u64>::new());
    assert_eq!(s.cursor(), Some(1));
    assert_eq!(s.buffered_sequences(), vec![3]);
    s.decode(delta(2));
    assert_eq!(decoded(&mut s), vec![2, 3]);
    assert_eq!(s.cursor(), Some(3));
    assert!(s.buffered_sequences().is_empty());
}

#[test]
fn decoder_fault_waits_for_next_key_frame() {
    let mut s = configured();
    s.decode(key(1));
    s.decode(delta(2));
    assert_eq!(decoded(&mut s), vec![1, 2]);
    s.report_decoder_closed();
    let status = s.decode(delta(3));
    assert_eq!(status, DecodeStatus { rendered: true, blocked_on_key: true });
    assert!(s.require_key());
    let out = s.take_output();
    assert!(out.replace_instance);
    assert!(out.frames.is_empty());
    assert_eq!(s.state(), DecoderState::Configured);
    s.decode(delta(4));
    s.decode(delta(5));
    assert_eq!(decoded(&mut s), Vec::<u64>::new());
    assert_eq!(s.cursor(), Some(3));
    let status = s.decode(key(6));
    assert_eq!(status, DecodeStatus { rendered: true, blocked_on_key: false });
    s.decode(delta(7));
    assert_eq!(decoded(&mut s), vec![6, 7]);
    assert_eq!(s.cursor(), Some(7));
}

#[test]
fn stale_duplicate_is_ignored() {
    let mut s = configured();
    s.decode(key(1));
    for n in 2..=5 {
        s.decode(delta(n));
    }
    decoded(&mut s);
    assert_eq!(s.cursor(), Some(5));
    s.decode(delta(3));
    assert_eq!(s.cursor(), Some(5));
    assert!(s.buffered_sequences().is_empty());
    assert_eq!(decoded(&mut s), Vec::<u64>::new());
}

#[test]
fn frames_before_first_key_are_dropped() {
    let mut s = configured();
    let status = s.decode(delta(1));
    assert_eq!(status, DecodeStatus { rendered: true, blocked_on_key: true });
    s.decode(delta(2));
    assert_eq!(s.cursor(), None);
    assert!(s.buffered_sequences().is_empty());
    assert_eq!(decoded(&mut s), Vec::<u64>::new());
}

#[test]
fn key_frame_discards_older_buffered_frames() {
    let mut s = configured();
    s.decode(key(1));
    s.decode(delta(4));
    s.decode(delta(6));
    s.decode(delta(12));
    assert_eq!(s.buffered_sequences(), vec![4, 6, 12]);
    s.decode(key(10));
    assert_eq!(s.buffered_sequences(), vec![12]);
    assert_eq!(s.cursor(), Some(10));
    assert_eq!(decoded(&mut s), vec![1, 10]);
}

#[test]
fn arbitrary_arrival_order_forwards_strictly_ascending() {
    let mut s = configured();
    let order = [1u64, 5, 3, 2, 9, 4, 4, 7, 6, 8, 2, 12, 11, 10];
    s.decode(key(order[0]));
    for &n in &order[1..] {
        s.decode(delta(n));
    }
    let out = decoded(&mut s);
    assert_eq!(out, (1..=12).collect::<Vec<u64>>());
    for w in out.windows(2) {
        assert!(w[0] < w[1]);
    }
}

#[test]
fn buffered_frames_after_a_key_drain_on_next_delta() {
    let mut s = configured();
    s.decode(key(1));
    s.decode(delta(6));
    s.decode(delta(7));
    s.decode(key(5));
    assert_eq!(decoded(&mut s), vec![1, 5]);
    s.decode(delta(9));
    assert_eq!(decoded(&mut s), vec![6, 7]);
    assert_eq!(s.cursor(), Some(7));
    assert_eq!(s.buffered_sequences(), vec![9]);
}

#[test]
fn full_buffer_evicts_oldest_frame() {
    let mut s = configured();
    s.decode(key(1));
    let cap = MAX_BUFFER_SIZE as u64;
    for n in 0..cap {
        s.decode(delta(3 + n));
    }
    let before = s.buffered_sequences();
    assert_eq!(before.len(), MAX_BUFFER_SIZE);
    assert_eq!(before[0], 3);
    s.decode(delta(3 + cap));
    let after = s.buffered_sequences();
    assert_eq!(after.len(), MAX_BUFFER_SIZE);
    assert_eq!(after[0], 4);
    assert_eq!(*after.last().unwrap(), 3 + cap);
    assert_eq!(s.cursor(), Some(1));
}

#[test]
fn duplicate_future_frame_keeps_buffer_size() {
    let mut s = configured();
    s.decode(key(1));
    s.decode(delta(5));
    s.decode(delta(5));
    assert_eq!(s.buffered_sequences(), vec![5]);
}

#[test]
fn unconfigured_decoder_drops_frames() {
    let mut s = VideoWorkerDecoder::new(FrameDecoderAdapter::new());
    s.decode(key(1));
    s.decode(delta(2));
    assert_eq!(s.cursor(), Some(2));
    assert_eq!(s.state(), DecoderState::Unconfigured);
    assert_eq!(decoded(&mut s), Vec::<u64>::new());
}

#[test]
fn fault_on_key_frame_keeps_waiting() {
    let mut s = configured();
    s.report_decoder_closed();
    let status = s.decode(key(1));
    assert!(status.blocked_on_key);
    assert_eq!(s.cursor(), Some(1));
    s.decode(delta(2));
    assert_eq!(s.cursor(), Some(1));
    s.decode(key(3));
    assert!(!s.require_key());
    assert_eq!(decoded(&mut s), vec![3]);
}

#[test]
fn largest_sequence_number_has_no_successor() {
    let mut s = configured();
    s.decode(key(u64::MAX));
    s.decode(delta(5));
    assert_eq!(s.cursor(), Some(u64::MAX));
    assert!(s.buffered_sequences().is_empty());
    assert_eq!(decoded(&mut s), vec![u64::MAX]);
}

#[test]
fn payload_reaches_decoder_unchanged() {
    let mut s = configured();
    let k = key(1);
    let expected = k.data.clone();
    s.decode(k);
    let out = s.take_output();
    assert_eq!(out.frames[0].data, expected);
    assert_eq!(out.frames[0].duration_bits, 33_000f64.to_bits());
}

#[test]
fn fault_does_not_drain_buffered_deltas() {
    let mut s = configured();
    s.decode(key(1));
    s.decode(delta(3));
    s.decode(delta(4));
    decoded(&mut s);
    s.report_decoder_closed();
    let status = s.decode(delta(2));
    assert!(status.blocked_on_key);
    let out = s.take_output();
    assert!(out.replace_instance);
    assert!(out.frames.is_empty());
    assert_eq!(s.cursor(), Some(2));
    assert_eq!(s.buffered_sequences(), vec![3, 4]);
    s.decode(delta(5));
    assert_eq!(decoded(&mut s), Vec::<u64>::new());
    s.decode(key(6));
    assert_eq!(decoded(&mut s), vec![6]);
    assert!(s.buffered_sequences().is_empty());
}
