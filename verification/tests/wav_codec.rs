//! Tests of the WAV container codec against hand-built bytes and against
//! an independent WAV implementation.

use whispering::wav::{
    decode_samples_i16, encode_canonical_wav, encode_wav_header, parse_wav_header, WavSampleFormat,
};

fn le32(b: &[u8], i: usize) -> u32 {
    b[i] as u32 + 256 * (b[i + 1] as u32) + 65536 * (b[i + 2] as u32) + 16777216 * (b[i + 3] as u32)
}

#[test]
fn canonical_encode_parses_back() {
    let samples: Vec<i16> = vec![1, -2, 3];
    let bytes = encode_canonical_wav(&samples);
    assert_eq!(bytes.len(), 44 + 6);
    let h = parse_wav_header(&bytes).expect("canonical bytes must parse");
    assert_eq!(h.spec.channels, 1);
    assert_eq!(h.spec.sample_rate, 16000);
    assert_eq!(h.spec.bits_per_sample, 16);
    assert!(matches!(h.spec.sample_format, WavSampleFormat::Int));
    assert_eq!(h.data_off, 44);
    assert_eq!(h.data_len, 6);
    let decoded = decode_samples_i16(&bytes, 44, 3);
    assert_eq!(decoded, samples);
}

#[test]
fn canonical_header_fields_are_exact() {
    let samples: Vec<i16> = vec![0; 5];
    let bytes = encode_canonical_wav(&samples);
    assert_eq!(&bytes[0..4], b"RIFF");
    assert_eq!(le32(&bytes, 4), 36 + 10);
    assert_eq!(&bytes[8..12], b"WAVE");
    assert_eq!(&bytes[12..16], b"fmt ");
    assert_eq!(le32(&bytes, 16), 16);
    assert_eq!(&bytes[36..40], b"data");
    assert_eq!(le32(&bytes, 40), 10);
}

#[test]
fn hound_reads_our_canonical_container() {
    let samples: Vec<i16> = vec![100, -100, 32767, -32768, 0];
    let bytes = encode_canonical_wav(&samples);
    let cursor = std::io::Cursor::new(&bytes);
    let mut reader = hound::WavReader::new(cursor).expect("hound must accept our container");
    let spec = reader.spec();
    assert_eq!(spec.channels, 1);
    assert_eq!(spec.sample_rate, 16000);
    assert_eq!(spec.bits_per_sample, 16);
    assert_eq!(spec.sample_format, hound::SampleFormat::Int);
    let read: Vec<i16> = reader.samples::<i16>().map(|s| s.unwrap()).collect();
    assert_eq!(read, samples);
}

#[test]
fn our_parser_reads_hound_output() {
    let spec = hound::WavSpec {
        channels: 2,
        sample_rate: 44100,
        bits_per_sample: 16,
        sample_format: hound::SampleFormat::Int,
    };
    let mut cursor = std::io::Cursor::new(Vec::new());
    {
        let mut writer = hound::WavWriter::new(&mut cursor, spec).unwrap();
        for s in [1i16, 2, 3, 4] {
            writer.write_sample(s).unwrap();
        }
        writer.finalize().unwrap();
    }
    let bytes = cursor.into_inner();
    let h = parse_wav_header(&bytes).expect("hound output must parse");
    assert_eq!(h.spec.channels, 2);
    assert_eq!(h.spec.sample_rate, 44100);
    assert_eq!(h.spec.bits_per_sample, 16);
    assert!(matches!(h.spec.sample_format, WavSampleFormat::Int));
    assert_eq!(h.data_len, 8);
    let decoded = decode_samples_i16(&bytes, h.data_off, 4);
    assert_eq!(decoded, vec![1, 2, 3, 4]);
}

#[test]
fn parser_rejects_garbage() {
    assert!(parse_wav_header(&vec![]).is_none());
    assert!(parse_wav_header(&vec![0u8; 100]).is_none());
    let mut bytes = encode_canonical_wav(&vec![1i16, 2]);
    bytes[0] = b'X';
    assert!(parse_wav_header(&bytes).is_none());
}

#[test]
fn parser_rejects_truncated_data_chunk() {
    let mut bytes = encode_canonical_wav(&vec![1i16, 2, 3]);
    // Claim more payload than the file holds.
    bytes[40] = 200;
    assert!(parse_wav_header(&bytes).is_none());
}

#[test]
fn parser_skips_unknown_chunks() {
    // RIFF/WAVE with a LIST chunk between fmt and data.
    let mut bytes: Vec<u8> = Vec::new();
    let header = encode_wav_header(1, 1, 16000, 16, 4);
    // Take the first 36 bytes (through the fmt chunk), add LIST, then data.
    bytes.extend_from_slice(&header[0..36]);
    bytes.extend_from_slice(b"LIST");
    bytes.extend_from_slice(&6u32.to_le_bytes());
    bytes.extend_from_slice(b"INFOab");
    bytes.extend_from_slice(b"data");
    bytes.extend_from_slice(&4u32.to_le_bytes());
    bytes.extend_from_slice(&[1, 0, 2, 0]);
    // Fix the RIFF size.
    let riff_size = (bytes.len() - 8) as u32;
    bytes[4..8].copy_from_slice(&riff_size.to_le_bytes());
    let h = parse_wav_header(&bytes).expect("unknown chunks must be skipped");
    assert_eq!(h.spec.sample_rate, 16000);
    assert_eq!(h.data_len, 4);
    let decoded = decode_samples_i16(&bytes, h.data_off, 2);
    assert_eq!(decoded, vec![1, 2]);
}

#[test]
fn parser_handles_odd_chunk_padding() {
    // An unknown chunk with an odd size is padded to an even boundary.
    let mut bytes: Vec<u8> = Vec::new();
    let header = encode_wav_header(1, 1, 16000, 16, 2);
    bytes.extend_from_slice(&header[0..36]);
    bytes.extend_from_slice(b"junk");
    bytes.extend_from_slice(&3u32.to_le_bytes());
    bytes.extend_from_slice(b"abc\0"); // 3 bytes + 1 pad
    bytes.extend_from_slice(b"data");
    bytes.extend_from_slice(&2u32.to_le_bytes());
    bytes.extend_from_slice(&[5, 0]);
    let riff_size = (bytes.len() - 8) as u32;
    bytes[4..8].copy_from_slice(&riff_size.to_le_bytes());
    let h = parse_wav_header(&bytes).expect("padded chunks must be skipped");
    assert_eq!(h.data_len, 2);
    let decoded = decode_samples_i16(&bytes, h.data_off, 1);
    assert_eq!(decoded, vec![5]);
}
