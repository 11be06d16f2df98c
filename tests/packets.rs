use videocall_client::{
    parse_media_packet, Audio, AudioWorkerDecoder, Decode, DecodeStatus, FakeDecoder,
    FrameDecoderAdapter, FrameKind, MediaKind, PeerDecodeError, PeerDecodeManager, ThreadType,
    Video, VideoPacket, VideoWorkerDecoder, WorkerDecoder,
};

fn varint(mut v: u64, out: &mut Vec<u8>) {
    loop {
        let b = (v % 128) as u8;
        v /= 128;
        if v == 0 {
            out.push(b);
            return;
        }
        out.push(b | 0x80);
    }
}

fn bytes_field(tag: u64, bytes: &[u8], out: &mut Vec<u8>) {
    varint(tag, out);
    varint(bytes.len() as u64, out);
    out.extend_from_slice(bytes);
}

fn double_field(tag: u64, x: f64, out: &mut Vec<u8>) {
    varint(tag, out);
    out.extend_from_slice(&x.to_le_bytes());
}

/// A media packet as the sender encodes it.
fn encode(sequence: u64, frame_type: &str, data: &[u8], timestamp: f64, duration: f64) -> Vec<u8> {
    let mut out = Vec::new();
    varint(8, &mut out); // media type
    varint(1, &mut out);
    bytes_field(18, b"alice@example.com", &mut out);
    bytes_field(26, data, &mut out);
    bytes_field(34, frame_type.as_bytes(), &mut out);
    double_field(41, timestamp, &mut out);
    double_field(49, duration, &mut out);
    let mut meta = Vec::new();
    varint(8, &mut meta);
    varint(sequence, &mut meta);
    bytes_field(66, &meta, &mut out);
    out
}

#[test]
fn parse_reads_every_field() {
    let raw = encode(300, "key", &[9, 8, 7], 1500.0, 33.5);
    let p = parse_media_packet(&raw).ok().unwrap();
    assert_eq!(p.sequence, 300);
    assert_eq!(p.data, vec![9, 8, 7]);
    assert_eq!(p.frame_type, b"key".to_vec());
    assert_eq!(f64::from_bits(p.timestamp_bits), 1500.0);
    assert_eq!(f64::from_bits(p.duration_bits), 33.5);
    let f = VideoPacket::from(p);
    assert_eq!(f.chunk_type, FrameKind::Key);
    assert_eq!(f.sequence_number, 300);
}

#[test]
fn parse_delta_type_name() {
    let raw = encode(2, "delta", &[1], 0.0, 0.0);
    let f = VideoPacket::from(parse_media_packet(&raw).ok().unwrap());
    assert_eq!(f.chunk_type, FrameKind::Delta);
}

#[test]
fn parse_empty_input_gives_defaults() {
    let p = parse_media_packet(&[]).ok().unwrap();
    assert_eq!(p.sequence, 0);
    assert!(p.data.is_empty());
    assert!(p.frame_type.is_empty());
    assert_eq!(p.timestamp_bits, 0);
}

#[test]
fn parse_large_sequence_varint() {
    let raw = encode(u64::MAX, "key", &[], 0.0, 0.0);
    assert_eq!(parse_media_packet(&raw).ok().unwrap().sequence, u64::MAX);
}

#[test]
fn parse_rejects_truncated_input() {
    let raw = encode(7, "key", &[1, 2, 3, 4], 1.0, 1.0);
    let cut = &raw[..raw.len() - 1];
    assert!(matches!(parse_media_packet(cut), Err(PeerDecodeError::PacketParseError)));
}

#[test]
fn parse_rejects_bad_wire_type_and_field_zero() {
    assert!(parse_media_packet(&[0x0b]).is_err());
    assert!(parse_media_packet(&[0x00, 0x01]).is_err());
    assert!(parse_media_packet(&[0x80]).is_err());
    let overlong = [0x08u8, 0xff, 0xff, 0xff, 0xff, 0xff, 0xff, 0xff, 0xff, 0xff, 0x7f];
    assert!(parse_media_packet(&overlong).is_err());
}

#[test]
fn parse_last_field_wins_and_skips_unknown() {
    let mut raw = encode(4, "delta", &[1], 0.0, 0.0);
    bytes_field(26, &[5, 5], &mut raw);
    varint(13 * 8 + 5, &mut raw);
    raw.extend_from_slice(&[0, 0, 0, 0]);
    let p = parse_media_packet(&raw).ok().unwrap();
    assert_eq!(p.data, vec![5, 5]);
    assert_eq!(p.sequence, 4);
}

#[test]
fn decode_bytes_sequences_wire_packets() {
    let mut s = VideoWorkerDecoder::open();
    let st = s.decode_bytes(&encode(1, "key", &[1], 0.0, 0.0)).ok().unwrap();
    assert_eq!(st, DecodeStatus { rendered: true, blocked_on_key: false });
    s.decode_bytes(&encode(3, "delta", &[3], 0.0, 0.0)).ok().unwrap();
    s.decode_bytes(&encode(2, "delta", &[2], 0.0, 0.0)).ok().unwrap();
    let out = s.take_output();
    let seqs: Vec<u64> = out.frames.iter().map(|f| f.sequence_number).collect();
    assert_eq!(seqs, vec![1, 2, 3]);
    assert_eq!(out.frames[2].data, vec![3]);
    assert!(s.decode_bytes(&[0xff]).is_err());
    assert_eq!(s.cursor(), Some(3));
}

#[test]
fn manager_creates_streams_lazily() {
    let mut m = PeerDecodeManager::new();
    let alice = "alice".to_string();
    let bob = "bob".to_string();
    m.route(&alice, MediaKind::Video, &encode(1, "key", &[1], 0.0, 0.0)).ok().unwrap();
    m.route(&alice, MediaKind::Video, &encode(2, "delta", &[2], 0.0, 0.0)).ok().unwrap();
    m.route(&alice, MediaKind::Screen, &encode(1, "key", &[1], 0.0, 0.0)).ok().unwrap();
    let st = m.route(&bob, MediaKind::Video, &encode(5, "delta", &[1], 0.0, 0.0)).ok().unwrap();
    assert!(st.blocked_on_key);
    assert_eq!(m.stream_count(), 3);
    let out = m.take_output(&alice, MediaKind::Video).unwrap();
    assert_eq!(out.frames.iter().map(|f| f.sequence_number).collect::<Vec<_>>(), vec![1, 2]);
    assert!(m.take_output(&bob, MediaKind::Audio).is_none());
}

#[test]
fn manager_parse_error_touches_nothing() {
    let mut m = PeerDecodeManager::new();
    let alice = "alice".to_string();
    let r = m.route(&alice, MediaKind::Video, &[0x0f]);
    assert!(matches!(r, Err(PeerDecodeError::PacketParseError)));
    assert_eq!(m.stream_count(), 0);
}

#[test]
fn manager_remove_peer_drops_its_streams() {
    let mut m = PeerDecodeManager::new();
    let alice = "alice".to_string();
    let bob = "bob".to_string();
    m.route(&alice, MediaKind::Video, &encode(1, "key", &[1], 0.0, 0.0)).ok().unwrap();
    m.route(&bob, MediaKind::Video, &encode(1, "key", &[1], 0.0, 0.0)).ok().unwrap();
    m.route(&alice, MediaKind::Audio, &encode(1, "key", &[1], 0.0, 0.0)).ok().unwrap();
    m.remove_peer(&alice);
    assert_eq!(m.stream_count(), 1);
    assert!(m.take_output(&alice, MediaKind::Video).is_none());
    assert!(m.take_output(&bob, MediaKind::Video).is_some());
}

#[test]
fn fake_decoder_reports_blocked() {
    let mut d = FakeDecoder::new();
    let st = d.decode(&vec![1, 2, 3]).ok().unwrap();
    assert_eq!(st, DecodeStatus { rendered: true, blocked_on_key: true });
}

#[test]
fn worker_decoder_queues_messages_in_order() {
    let mut w = WorkerDecoder::new();
    w.decode(&vec![1]).ok().unwrap();
    w.decode(&vec![2, 2]).ok().unwrap();
    assert_eq!(w.take_messages(), vec![vec![1], vec![2, 2]]);
    assert!(w.take_messages().is_empty());
}

#[test]
fn video_paths_keep_sequencing_semantics() {
    let packets = [
        encode(1, "key", &[1], 0.0, 0.0),
        encode(3, "delta", &[3], 0.0, 0.0),
        encode(2, "delta", &[2], 0.0, 0.0),
    ];
    let mut single = Video::new(ThreadType::Single);
    single.decode(&packets[0]).ok().unwrap();
    assert!(single.take_output().is_none());
    single.set_media();
    for p in &packets {
        single.decode(p).ok().unwrap();
    }
    let out = single.take_output().unwrap();
    assert_eq!(out.frames.iter().map(|f| f.sequence_number).collect::<Vec<_>>(), vec![1, 2, 3]);

    let mut multi = Video::new(ThreadType::Multithread);
    multi.set_media();
    for p in &packets {
        multi.decode(p).ok().unwrap();
    }
    assert_eq!(multi.take_messages(), packets.to_vec());
    let mut worker_side = VideoWorkerDecoder::open();
    for p in &packets {
        worker_side.decode_bytes(p).ok().unwrap();
    }
    let out = worker_side.take_output();
    assert_eq!(out.frames.iter().map(|f| f.sequence_number).collect::<Vec<_>>(), vec![1, 2, 3]);
}

#[test]
fn audio_decodes_in_arrival_order() {
    let mut a = AudioWorkerDecoder::new({
        let mut d = FrameDecoderAdapter::new();
        d.configure();
        d
    });
    a.decode(&encode(2, "key", &[2], 0.0, 0.0)).ok().unwrap();
    a.decode(&encode(1, "key", &[1], 0.0, 0.0)).ok().unwrap();
    assert!(a.decode(&vec![0xff]).is_err());
    let out = a.take_output();
    assert_eq!(out.frames.iter().map(|f| f.sequence_number).collect::<Vec<_>>(), vec![2, 1]);
    a.report_decoder_closed();
    a.decode(&encode(3, "delta", &[3], 0.0, 0.0)).ok().unwrap();
    let out = a.take_output();
    assert!(out.replace_instance);
    assert!(out.frames.is_empty());
    a.decode(&encode(4, "delta", &[4], 0.0, 0.0)).ok().unwrap();
    let out = a.take_output();
    assert!(!out.replace_instance);
    assert_eq!(out.frames.iter().map(|f| f.sequence_number).collect::<Vec<_>>(), vec![4]);

    let mut audio = Audio::new(ThreadType::Single);
    let st = audio.decode(&encode(1, "key", &[1], 0.0, 0.0)).ok().unwrap();
    assert!(st.blocked_on_key);
    audio.set_media();
    assert!(audio.decode(&vec![0xff]).is_err());
}

#[test]
fn decode_capability_is_interchangeable() {
    let mut paths: Vec<Box<dyn Decode>> = vec![
        Box::new(FakeDecoder::new()),
        Box::new(WorkerDecoder::new()),
        Box::new(VideoWorkerDecoder::open()),
        Box::new(Video::new(ThreadType::Single)),
    ];
    let packet = encode(1, "key", &[1], 0.0, 0.0);
    let statuses: Vec<DecodeStatus> =
        paths.iter_mut().map(|d| d.decode(&packet).ok().unwrap()).collect();
    assert!(statuses.iter().all(|s| s.rendered));
    assert!(!statuses[2].blocked_on_key);
    assert!(paths[2].decode(&vec![0x07]).is_err());
}

#[test]
fn parse_rejects_invalid_utf8_strings() {
    let mut raw = Vec::new();
    bytes_field(34, &[0x6b, 0xff, 0x79], &mut raw);
    assert!(matches!(parse_media_packet(&raw), Err(PeerDecodeError::PacketParseError)));
    let mut raw = Vec::new();
    bytes_field(18, &[0xed, 0xa0, 0x80], &mut raw);
    assert!(parse_media_packet(&raw).is_err());
    let mut raw = Vec::new();
    bytes_field(34, &[0xe0, 0x80], &mut raw);
    assert!(parse_media_packet(&raw).is_err());
    let mut raw = Vec::new();
    bytes_field(18, "zoë 日本 🎥".as_bytes(), &mut raw);
    bytes_field(34, "clé".as_bytes(), &mut raw);
    let p = parse_media_packet(&raw).ok().unwrap();
    assert_eq!(p.frame_type, "clé".as_bytes().to_vec());
}

#[test]
fn parse_skips_groups() {
    let mut raw = encode(9, "key", &[1], 0.0, 0.0);
    varint(20 * 8 + 3, &mut raw);
    varint(1 * 8, &mut raw);
    varint(77, &mut raw);
    varint(21 * 8 + 3, &mut raw);
    varint(21 * 8 + 4, &mut raw);
    varint(20 * 8 + 4, &mut raw);
    let p = parse_media_packet(&raw).ok().unwrap();
    assert_eq!(p.sequence, 9);
    let mut unterminated = Vec::new();
    varint(20 * 8 + 3, &mut unterminated);
    varint(8, &mut unterminated);
    varint(1, &mut unterminated);
    assert!(parse_media_packet(&unterminated).is_err());
    let mut mismatched = Vec::new();
    varint(20 * 8 + 3, &mut mismatched);
    varint(21 * 8 + 4, &mut mismatched);
    assert!(parse_media_packet(&mismatched).is_err());
    let mut stray_end = Vec::new();
    varint(20 * 8 + 4, &mut stray_end);
    assert!(parse_media_packet(&stray_end).is_err());
}

#[test]
fn parse_rejects_field_numbers_past_the_limit() {
    let mut ok = Vec::new();
    varint(0x1fff_ffff * 8, &mut ok);
    varint(1, &mut ok);
    assert!(parse_media_packet(&ok).is_ok());
    let mut too_big = Vec::new();
    varint(0x2000_0000 * 8, &mut too_big);
    varint(1, &mut too_big);
    assert!(parse_media_packet(&too_big).is_err());
}
