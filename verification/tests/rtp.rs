use media_server::rtp::{next_worker_step, AudioPacket, RtpAudioExtractor, TranscriptionCommand, WorkerStep};

#[test]
fn test_rtp_parser() {
    let mut extractor = RtpAudioExtractor::new();

    // Register an SSRC
    extractor.register_ssrc(0x12345678, 1, 1);

    // Create a minimal RTP packet with PT=111 (OPUS)
    let rtp_packet = vec![
        0x80, // V=2, P=0, X=0, CC=0
        111,  // M=0, PT=111
        0x00, 0x01, // Sequence number
        0x00, 0x00, 0x00, 0x00, // Timestamp
        0x12, 0x34, 0x56, 0x78, // SSRC
        // Payload (fake OPUS data)
        0xFC, 0x01, 0x02, 0x03,
    ];

    let result = extractor.extract_audio(&rtp_packet);
    assert!(result.is_some());
    let packet = result.unwrap();
    assert_eq!(packet.session_id, 1);
    assert_eq!(packet.endpoint_id, 1);
    assert_eq!(packet.ssrc, 0x12345678);
    assert_eq!(packet.opus_data, vec![0xFC, 0x01, 0x02, 0x03]);
}

#[test]
fn test_rtp_parser_unknown_ssrc() {
    let mut extractor = RtpAudioExtractor::new();

    // Create RTP packet with unknown SSRC
    let rtp_packet = vec![
        0x80, 111, 0x00, 0x01,
        0x00, 0x00, 0x00, 0x00,
        0xAB, 0xCD, 0xEF, 0x00,
        0xFC, 0x01, 0x02, 0x03,
    ];

    let result = extractor.extract_audio(&rtp_packet);
    assert!(result.is_none()); // Unknown SSRC
}

#[test]
fn test_rtp_parser_video_packet() {
    let mut extractor = RtpAudioExtractor::new();
    extractor.register_ssrc(0x12345678, 1, 1);

    // Create RTP packet with PT=96 (VP8 video)
    let rtp_packet = vec![
        0x80, 96, 0x00, 0x01, // PT=96 (not in our audio list)
        0x00, 0x00, 0x00, 0x00,
        0x12, 0x34, 0x56, 0x78,
        0x00, 0x01, 0x02, 0x03,
    ];

    let result = extractor.extract_audio(&rtp_packet);
    // PT=96 is NOT in our audio list (111, 109), so this should be None
    assert!(result.is_none());
}

fn packet(b0: u8, pt: u8, ssrc: [u8; 4], rest: &[u8]) -> Vec<u8> {
    let mut p = vec![b0, pt, 0x00, 0x07, 0x01, 0x02, 0x03, 0x04];
    p.extend_from_slice(&ssrc);
    p.extend_from_slice(rest);
    p
}

#[test]
fn rtp_timestamp_and_marker_bit() {
    let mut e = RtpAudioExtractor::new();
    e.register_ssrc(0x0A0B0C0D, 7, 9);
    // Marker bit set on a PT=109 packet.
    let p = packet(0x80, 0x80 | 109, [0x0A, 0x0B, 0x0C, 0x0D], &[5, 6]);
    let got = e.extract_audio(&p).unwrap();
    assert_eq!(got.timestamp, 0x01020304);
    assert_eq!((got.session_id, got.endpoint_id), (7, 9));
    assert_eq!(got.opus_data, vec![5, 6]);
}

#[test]
fn rtp_short_or_wrong_version_is_rejected() {
    let mut e = RtpAudioExtractor::new();
    e.register_ssrc(1, 1, 1);
    assert!(e.extract_audio(&[0x80, 111, 0, 0, 0, 0, 0, 0, 0, 0, 0]).is_none());
    let p = packet(0x40, 111, [0, 0, 0, 1], &[1, 2]);
    assert!(e.extract_audio(&p).is_none());
    let p = packet(0x80, 111, [0, 0, 0, 1], &[]);
    assert!(e.extract_audio(&p).is_none());
}

#[test]
fn rtp_csrc_list_is_skipped() {
    let mut e = RtpAudioExtractor::new();
    e.register_ssrc(1, 2, 3);
    // CC = 2: eight bytes of CSRCs before the payload.
    let p = packet(0x82, 111, [0, 0, 0, 1], &[9, 9, 9, 9, 8, 8, 8, 8, 0xAA, 0xBB]);
    assert_eq!(e.extract_audio(&p).unwrap().opus_data, vec![0xAA, 0xBB]);
    // Not enough bytes after the CSRCs.
    let p = packet(0x82, 111, [0, 0, 0, 1], &[9, 9, 9, 9, 8, 8, 8, 8]);
    assert!(e.extract_audio(&p).is_none());
}

#[test]
fn rtp_extension_is_skipped() {
    let mut e = RtpAudioExtractor::new();
    e.register_ssrc(1, 2, 3);
    // X = 1: extension header with length 1 (one 32-bit word).
    let p = packet(0x90, 111, [0, 0, 0, 1], &[0xBE, 0xDE, 0x00, 0x01, 1, 2, 3, 4, 0x55, 0x66]);
    assert_eq!(e.extract_audio(&p).unwrap().opus_data, vec![0x55, 0x66]);
    // Extension header does not fit: the bytes after the header are payload.
    let p = packet(0x90, 111, [0, 0, 0, 1], &[0xBE, 0xDE, 0x00, 0x01]);
    assert_eq!(e.extract_audio(&p).unwrap().opus_data, vec![0xBE, 0xDE, 0x00, 0x01]);
}

#[test]
fn rtp_padding_is_removed() {
    let mut e = RtpAudioExtractor::new();
    e.register_ssrc(1, 2, 3);
    let p = packet(0xA0, 111, [0, 0, 0, 1], &[0x11, 0x22, 0x33, 0x00, 0x02]);
    assert_eq!(e.extract_audio(&p).unwrap().opus_data, vec![0x11, 0x22, 0x33]);
    // Padding covering the whole payload leaves nothing.
    let p = packet(0xA0, 111, [0, 0, 0, 1], &[0x00, 0x02]);
    assert!(e.extract_audio(&p).is_none());
    // Padding longer than the packet.
    let p = packet(0xA0, 111, [0, 0, 0, 1], &[0x00, 0xFF]);
    assert!(e.extract_audio(&p).is_none());
}

#[test]
fn rtp_auto_learn_assigns_and_keeps_route() {
    let mut e = RtpAudioExtractor::with_auto_learn(5, 6);
    let p = packet(0x80, 111, [0, 0, 0, 42], &[1]);
    let got = e.extract_audio(&p).unwrap();
    assert_eq!((got.session_id, got.endpoint_id), (5, 6));
    assert_eq!(e.ssrc_map.get(&42), Some(&(5, 6)));
    // A later default does not move the learned SSRC.
    e.set_auto_learn(8, 8);
    let got = e.extract_audio(&p).unwrap();
    assert_eq!((got.session_id, got.endpoint_id), (5, 6));
    // A new SSRC goes to the new default.
    let q = packet(0x80, 111, [0, 0, 0, 43], &[1]);
    let got = e.extract_audio(&q).unwrap();
    assert_eq!((got.session_id, got.endpoint_id), (8, 8));
}

#[test]
fn rtp_auto_learn_happens_even_without_payload() {
    let mut e = RtpAudioExtractor::with_auto_learn(5, 6);
    let p = packet(0x80, 111, [0, 0, 0, 42], &[]);
    assert!(e.extract_audio(&p).is_none());
    assert_eq!(e.ssrc_map.get(&42), Some(&(5, 6)));
}

#[test]
fn rtp_unregister_drops_route() {
    let mut e = RtpAudioExtractor::new();
    e.register_ssrc(42, 1, 1);
    let p = packet(0x80, 111, [0, 0, 0, 42], &[1]);
    assert!(e.extract_audio(&p).is_some());
    e.unregister_ssrc(42);
    assert!(e.extract_audio(&p).is_none());
    e.register_ssrc(42, 2, 2);
    e.register_ssrc(42, 3, 4);
    let got = e.extract_audio(&p).unwrap();
    assert_eq!((got.session_id, got.endpoint_id), (3, 4));
}

#[test]
fn rtp_enable_disable_transcription() {
    let mut e = RtpAudioExtractor::default();
    assert!(!e.is_transcription_enabled(1, 2));
    e.enable_transcription_for_session(1, 2);
    e.enable_transcription_for_session(3, 4);
    assert!(e.is_transcription_enabled(1, 2));
    assert!(e.is_transcription_enabled(3, 4));
    assert_eq!(e.default_session, Some((3, 4)));
    e.disable_transcription_for_session(1, 2);
    assert!(!e.is_transcription_enabled(1, 2));
    assert!(e.is_transcription_enabled(3, 4));
    // Enabling also turns on auto-learning for that session.
    let p = packet(0x80, 111, [0, 0, 0, 77], &[1]);
    let got = e.extract_audio(&p).unwrap();
    assert_eq!((got.session_id, got.endpoint_id), (3, 4));
}

#[test]
fn worker_steps_follow_commands() {
    assert!(matches!(next_worker_step(None), WorkerStep::Exit));
    assert!(matches!(next_worker_step(Some(TranscriptionCommand::Shutdown)), WorkerStep::Exit));
    assert!(matches!(
        next_worker_step(Some(TranscriptionCommand::StartSession { session_id: 1, endpoint_id: 2 })),
        WorkerStep::Start { session_id: 1, endpoint_id: 2 }
    ));
    assert!(matches!(
        next_worker_step(Some(TranscriptionCommand::StopSession { session_id: 3, endpoint_id: 4 })),
        WorkerStep::Stop { session_id: 3, endpoint_id: 4 }
    ));
    let p = AudioPacket { session_id: 1, endpoint_id: 1, opus_data: vec![1, 2], timestamp: 5, ssrc: 6 };
    match next_worker_step(Some(TranscriptionCommand::Audio(p))) {
        WorkerStep::Process(q) => assert_eq!(q.opus_data, vec![1, 2]),
        _ => panic!("expected an audio step"),
    }
}
