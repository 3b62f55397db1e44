use media_server::wav::{create_wav, pcm_to_le_bytes};

#[test]
fn pcm_bytes_are_little_endian_twos_complement() {
    assert_eq!(pcm_to_le_bytes(&[0x0102, -1, -32768, 32767]), vec![0x02, 0x01, 0xFF, 0xFF, 0x00, 0x80, 0xFF, 0x7F]);
    assert_eq!(pcm_to_le_bytes(&[]), Vec::<u8>::new());
}

#[test]
fn pcm_bytes_round_trip() {
    let pcm: Vec<i16> = vec![0, 1, -1, 1234, -4321, i16::MIN, i16::MAX];
    let bytes = pcm_to_le_bytes(&pcm);
    let back: Vec<i16> = bytes.chunks(2).map(|c| i16::from_le_bytes([c[0], c[1]])).collect();
    assert_eq!(back, pcm);
}

#[test]
fn wav_header_layout() {
    let wav = create_wav(vec![1, -2], 16000, 1);
    let expected: Vec<u8> = vec![
        b'R', b'I', b'F', b'F', 40, 0, 0, 0, b'W', b'A', b'V', b'E',
        b'f', b'm', b't', b' ', 16, 0, 0, 0, 1, 0, 1, 0,
        0x80, 0x3E, 0, 0, 0x00, 0x7D, 0, 0, 2, 0, 16, 0,
        b'd', b'a', b't', b'a', 4, 0, 0, 0,
        0x01, 0x00, 0xFE, 0xFF,
    ];
    assert_eq!(wav, expected);
}

#[test]
fn wav_stereo_rates() {
    let wav = create_wav(vec![], 48000, 2);
    assert_eq!(wav.len(), 44);
    // byte rate = 48000 * 2 * 2, block align = 4
    assert_eq!(&wav[28..32], &192000u32.to_le_bytes());
    assert_eq!(&wav[32..34], &4u16.to_le_bytes());
    assert_eq!(&wav[4..8], &36u32.to_le_bytes());
    assert_eq!(&wav[40..44], &0u32.to_le_bytes());
}
