use dysonphere::sfz::Error;
use dysonphere::wav::{check_bit_depth, wav_layout, WavError, WavLayout};

fn le32(v: u32) -> [u8; 4] {
    v.to_le_bytes()
}

/// A canonical WAV header with `extra` chunks between `fmt ` and `data`.
fn wav(channels: u16, rate: u32, bits: u16, extra: &[(&[u8; 4], Vec<u8>)], data: &[u8], declared: u32) -> Vec<u8> {
    let mut v: Vec<u8> = Vec::new();
    v.extend_from_slice(b"RIFF");
    v.extend_from_slice(&le32(0));
    v.extend_from_slice(b"WAVE");
    v.extend_from_slice(b"fmt ");
    v.extend_from_slice(&le32(16));
    v.extend_from_slice(&1u16.to_le_bytes());
    v.extend_from_slice(&channels.to_le_bytes());
    v.extend_from_slice(&le32(rate));
    v.extend_from_slice(&le32(rate * channels as u32 * bits as u32 / 8));
    v.extend_from_slice(&(channels * bits / 8).to_le_bytes());
    v.extend_from_slice(&bits.to_le_bytes());
    for (tag, body) in extra {
        v.extend_from_slice(&tag[..]);
        v.extend_from_slice(&le32(body.len() as u32));
        v.extend_from_slice(body);
        if body.len() % 2 == 1 {
            v.push(0);
        }
    }
    v.extend_from_slice(b"data");
    v.extend_from_slice(&le32(declared));
    v.extend_from_slice(data);
    v
}

#[test]
fn reads_canonical_header() {
    let bytes = wav(2, 48000, 16, &[], &[1, 2, 3, 4, 5, 6, 7, 8], 8);
    let layout = wav_layout(&bytes).unwrap();
    assert_eq!(
        layout,
        WavLayout { num_channels: 2, sample_rate: 48000, bits_per_sample: 16, data_offset: 44, data_end: 52 }
    );
}

#[test]
fn skips_chunks_with_padding() {
    let bytes = wav(1, 22050, 8, &[(b"LIST", vec![9, 9, 9])], &[0, 0, 0, 0], 4);
    let layout = wav_layout(&bytes).unwrap();
    assert_eq!(layout.data_offset, 44 + 12);
    assert_eq!(layout.data_end, 44 + 12 + 4);
    assert_eq!(layout.sample_rate, 22050);
    assert_eq!(layout.bits_per_sample, 8);
}

#[test]
fn caps_data_at_end_of_file() {
    let bytes = wav(1, 44100, 16, &[], &[1, 2, 3, 4], 1000);
    let layout = wav_layout(&bytes).unwrap();
    assert_eq!(layout.data_offset, 44);
    assert_eq!(layout.data_end, 48);
}

#[test]
fn rejects_bad_headers() {
    assert_eq!(wav_layout(&[0u8; 43]), Err(WavError::TooShort));
    let mut bytes = wav(1, 44100, 16, &[], &[0; 4], 4);
    bytes[0] = b'X';
    assert_eq!(wav_layout(&bytes), Err(WavError::NotWav));
    let mut bytes = wav(1, 44100, 16, &[], &[0; 4], 4);
    bytes[10] = b'X';
    assert_eq!(wav_layout(&bytes), Err(WavError::NotWav));
    let mut bytes = wav(1, 44100, 16, &[], &[0; 4], 4);
    bytes[12] = b'F';
    assert_eq!(wav_layout(&bytes), Err(WavError::MissingFmt));
}

#[test]
fn missing_data_chunk() {
    let mut bytes = wav(1, 44100, 16, &[], &[0; 4], 4);
    bytes[36] = b'x';
    assert_eq!(wav_layout(&bytes), Err(WavError::NoData));
    let huge = wav(1, 44100, 16, &[(b"junk", vec![0; 2])], &[], 0);
    let mut cut = huge.clone();
    cut[40] = 0xff;
    cut[41] = 0xff;
    assert_eq!(wav_layout(&cut), Err(WavError::NoData));
}

fn parse_message(e: Error) -> String {
    match e {
        Error::Parse(m) => m,
        Error::Io(..) => panic!("expected a parse error"),
    }
}

#[test]
fn error_messages() {
    assert_eq!(parse_message(WavError::TooShort.into_error()), "WAV file too short");
    assert_eq!(parse_message(WavError::NotWav.into_error()), "Not a valid WAV file");
    assert_eq!(parse_message(WavError::MissingFmt.into_error()), "Missing fmt chunk in WAV");
    assert_eq!(parse_message(WavError::NoData.into_error()), "No data chunk found in WAV");
}

#[test]
fn bit_depths() {
    for bits in [8u16, 16, 24, 32] {
        assert!(check_bit_depth(bits).is_ok());
    }
    assert_eq!(parse_message(check_bit_depth(12).unwrap_err()), "Unsupported bit depth: 12");
    assert_eq!(parse_message(check_bit_depth(0).unwrap_err()), "Unsupported bit depth: 0");
    assert_eq!(parse_message(check_bit_depth(65535).unwrap_err()), "Unsupported bit depth: 65535");
}
