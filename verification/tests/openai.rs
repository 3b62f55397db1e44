use media_server::openai::{
    chunk_duration_ms, model_or_default, normalize_base_url, reply_segment, reply_text, transcription_url, ChunkBuffer,
};

#[test]
fn base_url_defaults_and_models_suffix() {
    assert_eq!(normalize_base_url(None), "https://api.openai.com/v1");
    assert_eq!(normalize_base_url(Some("http://h/v1/models".to_string())), "http://h/v1");
    assert_eq!(normalize_base_url(Some("http://h/v1/models/models".to_string())), "http://h/v1");
    assert_eq!(normalize_base_url(Some("http://h/v1/".to_string())), "http://h/v1/");
    assert_eq!(normalize_base_url(Some("/models".to_string())), "");
}

#[test]
fn model_default() {
    assert_eq!(model_or_default(None), "whisper-1");
    assert_eq!(model_or_default(Some("m".to_string())), "m");
}

#[test]
fn endpoint_url() {
    assert_eq!(transcription_url("https://api.openai.com/v1"), "https://api.openai.com/v1/audio/transcriptions");
    assert_eq!(transcription_url("http://h/v1///"), "http://h/v1/audio/transcriptions");
    assert_eq!(transcription_url(""), "/audio/transcriptions");
}

#[test]
fn durations() {
    assert_eq!(chunk_duration_ms(16000), 1000);
    assert_eq!(chunk_duration_ms(15), 0);
    assert_eq!(chunk_duration_ms(80001), 5000);
    assert_eq!(chunk_duration_ms(24), 1);
}

#[test]
fn buffer_flush_rules() {
    let mut b = ChunkBuffer::new();
    b.push(&vec![0i16; 1599]);
    assert!(!b.flush_due(10_000));
    b.push(&[0]);
    assert!(!b.flush_due(4_999));
    assert!(b.flush_due(5_000));
    assert!(b.poll_chunk(0).is_none());
    assert_eq!(b.len(), 1600);
    b.push(&vec![0i16; 78_400]);
    assert!(!b.over_limit());
    b.push(&[0]);
    assert!(b.over_limit());
    let c = b.poll_chunk(0).unwrap();
    assert_eq!(c.samples.len(), 80_001);
    assert_eq!((c.start_ms, c.end_ms), (0, 5000));
    assert_eq!(b.len(), 0);
}

#[test]
fn stream_clock_advances() {
    let mut b = ChunkBuffer::new();
    b.push(&vec![1i16; 32000]);
    let c1 = b.take_chunk();
    assert_eq!((c1.start_ms, c1.end_ms), (0, 2000));
    b.push(&vec![1i16; 8000]);
    let c2 = b.take_chunk();
    assert_eq!((c2.start_ms, c2.end_ms), (2000, 2500));
    assert_eq!(c2.samples, vec![1i16; 8000]);
}

#[test]
fn blank_replies_are_dropped() {
    assert!(reply_segment(0, 100, "  \n".to_string()).is_none());
    assert!(reply_segment(0, 100, String::new()).is_none());
    let s = reply_segment(100, 200, " hi ".to_string()).unwrap();
    assert_eq!((s.start_ms, s.end_ms, s.text.as_str()), (100, 200, " hi "));
}

#[test]
fn reply_text_of_json_bodies() {
    assert_eq!(reply_text(br#"{"text":" And so"}"#), Some(" And so".to_string()));
    assert_eq!(reply_text(br#"{"text":"a\nb","x":1}"#), Some("a\nb".to_string()));
    assert_eq!(reply_text(br#"{"other":"x"}"#), Some(String::new()));
    assert_eq!(reply_text(br#"{"text":5}"#), Some(String::new()));
    assert_eq!(reply_text(br#"["text"]"#), Some(String::new()));
    assert_eq!(reply_text(b"not json"), None);
    assert_eq!(reply_text(b""), None);
}
