use videocall_client::{DecoderState, FrameDecoderAdapter, FrameKind, VideoPacket};

fn packet(n: u64) -> VideoPacket {
    VideoPacket {
        data: vec![1, 2, 3],
        chunk_type: FrameKind::Delta,
        timestamp_bits: 0,
        duration_bits: 0,
        sequence_number: n,
    }
}

#[test]
fn adapter_starts_unconfigured_and_configures() {
    let mut a = FrameDecoderAdapter::new();
    assert_eq!(a.state(), DecoderState::Unconfigured);
    a.configure();
    assert_eq!(a.state(), DecoderState::Configured);
}

#[test]
fn adapter_unconfigured_drops() {
    let mut a = FrameDecoderAdapter::new();
    assert!(!a.decode_packet(packet(1)));
    assert!(a.take_output().frames.is_empty());
}

#[test]
fn adapter_closed_is_replaced() {
    let mut a = FrameDecoderAdapter::new();
    a.configure();
    a.close();
    assert_eq!(a.state(), DecoderState::Closed);
    a.configure();
    assert_eq!(a.state(), DecoderState::Closed);
    assert!(a.decode_packet(packet(1)));
    assert_eq!(a.state(), DecoderState::Configured);
    let out = a.take_output();
    assert!(out.replace_instance);
    assert!(out.frames.is_empty());
    assert!(!a.decode_packet(packet(2)));
    let out = a.take_output();
    assert!(!out.replace_instance);
    assert_eq!(out.frames.len(), 1);
}

#[test]
fn adapter_submit_needs_configured() {
    let mut a = FrameDecoderAdapter::new();
    a.submit(packet(1));
    a.configure();
    a.submit(packet(2));
    a.close();
    a.submit(packet(3));
    let out = a.take_output();
    assert_eq!(out.frames.iter().map(|f| f.sequence_number).collect::<Vec<_>>(), vec![2]);
}
