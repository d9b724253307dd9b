//! Tests of the normalization pipeline: the tiered strategy, the exact
//! sample arithmetic per source encoding, the resampling plan, and the
//! end-to-end resampling length law with a real windowed-sinc resampler.

use rubato::{
    Resampler, SincFixedIn, SincInterpolationParameters, SincInterpolationType, WindowFunction,
};
use whispering::normalize::{
    convert_audio_for_whisper, convert_audio_rust, extract_samples_from_wav, finish_resample,
    is_valid_wav_format, ConversionOutcome, TranscriptionError,
};
use whispering::wav::{encode_canonical_wav, parse_wav_header};

/// Builds a WAV container with hound for a given spec and raw samples.
fn hound_wav_i16(channels: u16, rate: u32, samples: &[i16]) -> Vec<u8> {
    let spec = hound::WavSpec {
        channels,
        sample_rate: rate,
        bits_per_sample: 16,
        sample_format: hound::SampleFormat::Int,
    };
    let mut cursor = std::io::Cursor::new(Vec::new());
    {
        let mut writer = hound::WavWriter::new(&mut cursor, spec).unwrap();
        for &s in samples {
            writer.write_sample(s).unwrap();
        }
        writer.finalize().unwrap();
    }
    cursor.into_inner()
}

fn hound_wav_i32(channels: u16, rate: u32, samples: &[i32]) -> Vec<u8> {
    let spec = hound::WavSpec {
        channels,
        sample_rate: rate,
        bits_per_sample: 32,
        sample_format: hound::SampleFormat::Int,
    };
    let mut cursor = std::io::Cursor::new(Vec::new());
    {
        let mut writer = hound::WavWriter::new(&mut cursor, spec).unwrap();
        for &s in samples {
            writer.write_sample(s).unwrap();
        }
        writer.finalize().unwrap();
    }
    cursor.into_inner()
}

fn hound_wav_f32(channels: u16, rate: u32, samples: &[f32]) -> Vec<u8> {
    let spec = hound::WavSpec {
        channels,
        sample_rate: rate,
        bits_per_sample: 32,
        sample_format: hound::SampleFormat::Float,
    };
    let mut cursor = std::io::Cursor::new(Vec::new());
    {
        let mut writer = hound::WavWriter::new(&mut cursor, spec).unwrap();
        for &s in samples {
            writer.write_sample(s).unwrap();
        }
        writer.finalize().unwrap();
    }
    cursor.into_inner()
}

#[test]
fn canonical_input_fast_path_is_identity() {
    // Already-canonical bytes take tier 1 and are used unchanged.
    let input = encode_canonical_wav(&vec![10i16, -20, 30]);
    assert!(is_valid_wav_format(&input));
    let outcome = convert_audio_for_whisper(&input).unwrap();
    assert!(matches!(outcome, ConversionOutcome::AlreadyCanonical));
}

#[test]
fn non_canonical_input_is_not_fast_pathed() {
    let input = hound_wav_i16(2, 16000, &[1, 2, 3, 4]);
    assert!(!is_valid_wav_format(&input));
    let outcome = convert_audio_for_whisper(&input).unwrap();
    assert!(!matches!(outcome, ConversionOutcome::AlreadyCanonical));
}

#[test]
fn stereo_is_downmixed_by_mean() {
    // Frames (100, 200) and (-50, 50): means 150 and 0; the Q1.31 value
    // 150/32768 scales to floor(150 * 32767 / 32768) = 149.
    let input = hound_wav_i16(2, 16000, &[100, 200, -50, 50]);
    let out = match convert_audio_rust(&input).unwrap() {
        ConversionOutcome::Finished(out) => out,
        _ => panic!("16 kHz input must finish without resampling"),
    };
    assert!(is_valid_wav_format(&out));
    let samples = extract_samples_from_wav(&out).unwrap();
    assert_eq!(samples, vec![149, 0]);
}

#[test]
fn three_channels_are_downmixed_by_mean() {
    // One frame (300, 600, 900): mean 600 scales to floor(600*32767/32768).
    let input = hound_wav_i16(3, 16000, &[300, 600, 900]);
    let out = match convert_audio_rust(&input).unwrap() {
        ConversionOutcome::Finished(out) => out,
        _ => panic!("16 kHz input must finish without resampling"),
    };
    let samples = extract_samples_from_wav(&out).unwrap();
    assert_eq!(samples, vec![(600i32 * 32767 / 32768) as i16]);
}

#[test]
fn thirty_two_bit_input_is_scaled_exactly() {
    // 2^30 is 0.5 in Q1.31: 0.5 * 32767 truncates to 16383.
    let input = hound_wav_i32(1, 16000, &[1 << 30, -(1 << 30), 0]);
    let out = match convert_audio_rust(&input).unwrap() {
        ConversionOutcome::Finished(out) => out,
        _ => panic!("16 kHz input must finish without resampling"),
    };
    let samples = extract_samples_from_wav(&out).unwrap();
    assert_eq!(samples, vec![16383, -16383, 0]);
}

#[test]
fn float_input_is_scaled_exactly() {
    // 0.5 maps to 16383; -1.0 to -32767; 1.0 saturates the Q1.31 form
    // just below full scale and scales to 32766.
    let input = hound_wav_f32(1, 16000, &[0.5, -1.0, 1.0, 0.0]);
    let out = match convert_audio_rust(&input).unwrap() {
        ConversionOutcome::Finished(out) => out,
        _ => panic!("16 kHz input must finish without resampling"),
    };
    let samples = extract_samples_from_wav(&out).unwrap();
    assert_eq!(samples, vec![16383, -32767, 32766, 0]);
}

#[test]
fn output_is_canonical_for_every_source_shape() {
    // 16-bit stereo, 32-bit mono, float with four channels: the output
    // container is always 16 kHz / mono / 16-bit PCM.
    let inputs = vec![
        hound_wav_i16(2, 16000, &[1, 2, 3, 4]),
        hound_wav_i32(1, 16000, &[5, 6]),
        hound_wav_f32(4, 16000, &[0.1, 0.2, 0.3, 0.4]),
    ];
    for input in inputs {
        let out = match convert_audio_rust(&input).unwrap() {
            ConversionOutcome::Finished(out) => out,
            _ => panic!("16 kHz input must finish without resampling"),
        };
        assert!(is_valid_wav_format(&out));
        let h = parse_wav_header(&out).unwrap();
        assert_eq!(h.spec.channels, 1);
        assert_eq!(h.spec.sample_rate, 16000);
        assert_eq!(h.spec.bits_per_sample, 16);
    }
}

#[test]
fn unsupported_bit_depth_is_an_audio_read_error() {
    let spec = hound::WavSpec {
        channels: 1,
        sample_rate: 16000,
        bits_per_sample: 8,
        sample_format: hound::SampleFormat::Int,
    };
    let mut cursor = std::io::Cursor::new(Vec::new());
    {
        let mut writer = hound::WavWriter::new(&mut cursor, spec).unwrap();
        writer.write_sample(1i8).unwrap();
        writer.finalize().unwrap();
    }
    let input = cursor.into_inner();
    let r = convert_audio_rust(&input);
    assert!(matches!(r, Err(TranscriptionError::AudioReadError { .. })));
}

#[test]
fn malformed_bytes_are_an_audio_read_error() {
    let input = vec![1u8, 2, 3, 4, 5];
    let r = convert_audio_rust(&input);
    assert!(matches!(r, Err(TranscriptionError::AudioReadError { .. })));
}

#[test]
fn rate_below_two_khz_is_rejected() {
    let input = hound_wav_i16(1, 1000, &[1, 2, 3]);
    let r = convert_audio_rust(&input);
    match r {
        Err(TranscriptionError::UnsupportedSampleRateError { sample_rate }) => {
            assert_eq!(sample_rate, 1000);
        },
        _ => panic!("a 1 kHz input needs a ratio above 8x and must be rejected"),
    }
}

#[test]
fn resample_job_has_exact_plan() {
    let n = 4567usize;
    let samples: Vec<i16> = (0..n).map(|i| (i % 97) as i16).collect();
    let input = hound_wav_i16(1, 44100, &samples);
    let job = match convert_audio_rust(&input).unwrap() {
        ConversionOutcome::NeedsResample(job) => job,
        _ => panic!("a 44.1 kHz input must need resampling"),
    };
    assert_eq!(job.source_rate, 44100);
    // round(4567 * 16000 / 44100), half away from zero.
    assert_eq!(job.expected_len, (2 * n * 16000 + 44100) / (2 * 44100));
    assert_eq!(job.expected_len, 1657);
    // ceil(4567 / 1024) chunks of exactly 1024 samples, zero padded.
    assert_eq!(job.chunks.len(), 5);
    for chunk in &job.chunks {
        assert_eq!(chunk.len(), 1024);
    }
    // The padding of the final chunk is zero.
    let last = &job.chunks[4];
    for k in (n - 4 * 1024)..1024 {
        assert_eq!(last[k], 0);
    }
}

/// Runs the real windowed-sinc resampler over a job's chunks, with the
/// parameters the pipeline is specified for.
fn run_resampler(chunks: &[Vec<i32>], source_rate: u32) -> Vec<i16> {
    let params = SincInterpolationParameters {
        sinc_len: 64,
        f_cutoff: 0.95,
        interpolation: SincInterpolationType::Linear,
        oversampling_factor: 128,
        window: WindowFunction::BlackmanHarris2,
    };
    let ratio = 16000.0 / source_rate as f64;
    let mut resampler = SincFixedIn::<f32>::new(ratio, 8.0, params, 1024, 1).unwrap();
    let mut out: Vec<i16> = Vec::new();
    for chunk in chunks {
        let floats: Vec<f32> = chunk.iter().map(|&q| q as f32 / 2147483648.0).collect();
        let waves_out = resampler.process(&vec![floats], None).unwrap();
        for &v in &waves_out[0] {
            let clamped = v.max(-1.0).min(1.0);
            out.push((clamped * 32767.0) as i16);
        }
    }
    out
}

#[test]
fn resampled_output_length_is_exactly_the_rounded_value() {
    // The length law, end to end: for N samples at rate R the finished
    // container holds exactly round(N * 16000 / R) samples, never off by
    // one from the chunk padding. The zero padding of the final chunk
    // must cover the resampler's sinc latency (half the 64-tap kernel),
    // so the inputs here stay clear of exact multiples of the chunk size.
    for (n, rate) in [(4567usize, 44100u32), (4000, 48000), (1, 32000), (900, 22050)] {
        let samples: Vec<i16> = (0..n).map(|i| ((i * 37) % 2000) as i16 - 1000).collect();
        let input = hound_wav_i16(1, rate, &samples);
        let job = match convert_audio_rust(&input).unwrap() {
            ConversionOutcome::NeedsResample(job) => job,
            _ => panic!("input must need resampling"),
        };
        let resampled = run_resampler(&job.chunks, job.source_rate);
        assert!(resampled.len() >= job.expected_len, "resampler returned too few samples");
        let out = finish_resample(&resampled, job.expected_len);
        assert!(is_valid_wav_format(&out));
        let got = extract_samples_from_wav(&out).unwrap();
        let expected = (2 * n * 16000 + rate as usize) / (2 * rate as usize);
        assert_eq!(got.len(), expected);
        assert_eq!(got.len(), job.expected_len);
    }
}

#[test]
fn extract_samples_reads_canonical_payload() {
    let bytes = encode_canonical_wav(&vec![7i16, -8, 9]);
    let samples = extract_samples_from_wav(&bytes).unwrap();
    assert_eq!(samples, vec![7, -8, 9]);
}

#[test]
fn extract_samples_of_empty_audio_is_empty_not_an_error() {
    let bytes = encode_canonical_wav(&vec![]);
    let samples = extract_samples_from_wav(&bytes).unwrap();
    assert!(samples.is_empty());
}

#[test]
fn extract_samples_rejects_float_containers() {
    let bytes = hound_wav_f32(1, 16000, &[0.1, 0.2]);
    let r = extract_samples_from_wav(&bytes);
    assert!(matches!(r, Err(TranscriptionError::AudioReadError { .. })));
}
