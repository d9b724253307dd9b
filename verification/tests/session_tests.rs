//! Tests of device resolution, configuration negotiation, the session
//! state machine, and the sink — including the whole mock recording
//! scenario from device list to finalized container.

use whispering::session::{
    find_device, get_optimal_config, ConfigRange, DeviceSelection, RecorderError, RecorderState,
    StreamSampleFormat,
};
use whispering::sink::{handle_frame_i16, SinkEncoding, WavSink};
use whispering::levels::LevelWindow;
use whispering::wav::parse_wav_header;

fn cfg(channels: u16, min: u32, max: u32, fmt: StreamSampleFormat) -> ConfigRange {
    ConfigRange { channels, min_sample_rate: min, max_sample_rate: max, sample_format: fmt }
}

#[test]
fn mock_device_is_found_by_name() {
    let names = vec!["Mock Mic".to_string()];
    let r = find_device(&names, "Mock Mic").unwrap();
    assert_eq!(r, DeviceSelection::Index(0));
}

#[test]
fn default_sentinel_picks_host_default() {
    let names = vec!["Mock Mic".to_string()];
    assert_eq!(find_device(&names, "default").unwrap(), DeviceSelection::UseDefault);
    assert_eq!(find_device(&names, "DEFAULT").unwrap(), DeviceSelection::UseDefault);
    assert_eq!(find_device(&names, "Default").unwrap(), DeviceSelection::UseDefault);
}

#[test]
fn missing_device_is_reported() {
    let names = vec!["Mock Mic".to_string()];
    let r = find_device(&names, "Other Mic");
    assert!(matches!(r, Err(RecorderError::DeviceNotFoundError { .. })));
}

#[test]
fn first_of_equally_named_devices_wins() {
    let names = vec!["A".to_string(), "B".to_string(), "B".to_string()];
    assert_eq!(find_device(&names, "B").unwrap(), DeviceSelection::Index(1));
}

#[test]
fn negotiation_prefers_mono_covering_target() {
    let configs = vec![
        cfg(2, 8000, 48000, StreamSampleFormat::F32),
        cfg(1, 8000, 48000, StreamSampleFormat::I16),
    ];
    let c = get_optimal_config(&configs, Some(16000)).unwrap();
    assert_eq!(c.channels, 1);
    assert_eq!(c.sample_rate, 16000);
    assert_eq!(c.sample_format, StreamSampleFormat::I16);
}

#[test]
fn negotiation_falls_back_to_any_covering_config() {
    let configs = vec![
        cfg(2, 8000, 48000, StreamSampleFormat::F32),
        cfg(1, 44100, 48000, StreamSampleFormat::I16),
    ];
    let c = get_optimal_config(&configs, Some(16000)).unwrap();
    assert_eq!(c.channels, 2);
    assert_eq!(c.sample_rate, 16000);
}

#[test]
fn negotiation_picks_closest_mono_rate() {
    // Nothing covers 16000; the mono config at 44100..48000 is 28100
    // away, the mono config at 22050..22050 is 6050 away.
    let configs = vec![
        cfg(1, 44100, 48000, StreamSampleFormat::F32),
        cfg(1, 22050, 22050, StreamSampleFormat::I16),
        cfg(2, 8000, 48000, StreamSampleFormat::Other),
    ];
    let c = get_optimal_config(&configs, Some(16000)).unwrap();
    assert_eq!(c.sample_rate, 22050);
    assert_eq!(c.sample_format, StreamSampleFormat::I16);
}

#[test]
fn negotiation_tie_keeps_the_first_mono() {
    let configs = vec![
        cfg(1, 20000, 20000, StreamSampleFormat::F32),
        cfg(1, 12000, 12000, StreamSampleFormat::I16),
    ];
    // Both are 4000 away from 16000: the earlier config wins.
    let c = get_optimal_config(&configs, Some(16000)).unwrap();
    assert_eq!(c.sample_rate, 20000);
    assert_eq!(c.sample_format, StreamSampleFormat::F32);
}

#[test]
fn negotiation_last_resort_takes_first_compatible_at_min_rate() {
    // No mono at all and nothing covers the target: the first compatible
    // configuration is clamped to its minimum rate.
    let configs = vec![
        cfg(2, 44100, 48000, StreamSampleFormat::U16),
        cfg(2, 22050, 22050, StreamSampleFormat::F32),
    ];
    let c = get_optimal_config(&configs, Some(16000)).unwrap();
    assert_eq!(c.channels, 2);
    assert_eq!(c.sample_rate, 44100);
    assert_eq!(c.sample_format, StreamSampleFormat::U16);
}

#[test]
fn negotiation_default_target_is_sixteen_khz() {
    let configs = vec![cfg(1, 8000, 48000, StreamSampleFormat::F32)];
    let c = get_optimal_config(&configs, None).unwrap();
    assert_eq!(c.sample_rate, 16000);
}

#[test]
fn negotiation_rejects_empty_config_list() {
    let r = get_optimal_config(&vec![], Some(16000));
    assert!(matches!(r, Err(RecorderError::NoSupportedConfigError)));
}

#[test]
fn negotiation_rejects_unsupported_formats() {
    let configs = vec![cfg(1, 8000, 48000, StreamSampleFormat::Other)];
    let r = get_optimal_config(&configs, Some(16000));
    assert!(matches!(r, Err(RecorderError::NoCompatibleFormatError)));
}

#[test]
fn session_lifecycle_reports_id_only_while_recording() {
    let mut rec = RecorderState::new();
    assert!(rec.get_current_recording_id().is_none());
    rec.init_session("rec1".to_string(), "/tmp/out/rec1.wav".to_string(), 16000, 1);
    // Initialized but not yet recording: no id.
    assert!(rec.get_current_recording_id().is_none());
    rec.start_recording().unwrap();
    assert_eq!(rec.get_current_recording_id().unwrap(), "rec1");
    let recording = rec.stop_recording(32000);
    // Stopped: no id again.
    assert!(rec.get_current_recording_id().is_none());
    assert_eq!(recording.sample_rate, 16000);
    assert_eq!(recording.channels, 1);
    assert_eq!(recording.total_frames, 32000);
    assert_eq!(recording.file_path.unwrap(), "/tmp/out/rec1.wav");
}

#[test]
fn start_without_session_fails() {
    let mut rec = RecorderState::new();
    assert!(matches!(rec.start_recording(), Err(RecorderError::NoActiveSessionError)));
}

#[test]
fn close_session_twice_is_a_no_op_both_times() {
    let mut rec = RecorderState::new();
    rec.init_session("rec1".to_string(), "/tmp/rec1.wav".to_string(), 16000, 1);
    rec.start_recording().unwrap();
    rec.close_session();
    assert!(rec.get_current_recording_id().is_none());
    // A second close of the already-closed session changes nothing.
    rec.close_session();
    assert!(rec.get_current_recording_id().is_none());
    // And commands on the closed session behave as with no session.
    assert!(matches!(rec.start_recording(), Err(RecorderError::NoActiveSessionError)));
}

#[test]
fn cancel_returns_the_file_to_delete() {
    let mut rec = RecorderState::new();
    rec.init_session("rec9".to_string(), "/tmp/out/rec9.wav".to_string(), 16000, 1);
    rec.start_recording().unwrap();
    let deleted = rec.cancel_recording();
    assert_eq!(deleted.unwrap(), "/tmp/out/rec9.wav");
    assert!(rec.get_current_recording_id().is_none());
    // Cancelling again is a no-op with nothing left to delete.
    assert!(rec.cancel_recording().is_none());
}

#[test]
fn mock_recording_scenario_writes_two_seconds() {
    // One mock device, negotiated at 16 kHz mono; two seconds of zero
    // samples pass through the callback path; the finalized container
    // declares exactly 32000 * 2 payload bytes.
    let names = vec!["Mock Mic".to_string()];
    assert_eq!(find_device(&names, "default").unwrap(), DeviceSelection::UseDefault);
    let configs = vec![cfg(1, 8000, 48000, StreamSampleFormat::I16)];
    let c = get_optimal_config(&configs, Some(16000)).unwrap();
    assert_eq!(c.sample_rate, 16000);
    assert_eq!(c.channels, 1);

    let mut rec = RecorderState::new();
    rec.init_session("rec2s".to_string(), "/tmp/out/rec2s.wav".to_string(), c.sample_rate, c.channels);
    let mut sink = WavSink::new(c.sample_rate, c.channels, SinkEncoding::Int16);
    let mut window = LevelWindow::new();
    rec.start_recording().unwrap();

    let frame: Vec<i16> = vec![0; 1000];
    for _ in 0..32 {
        let levels = handle_frame_i16(&mut sink, &mut window, &frame);
        if let Some(bars) = levels {
            assert_eq!(bars.len(), 9);
            for &b in &bars {
                assert_eq!(b, 0);
            }
        }
    }

    let (rate, channels, frames) = sink.get_metadata();
    assert_eq!((rate, channels, frames), (16000, 1, 32000));
    let bytes = sink.finalize();
    let recording = rec.stop_recording(frames);
    assert_eq!(recording.sample_rate, 16000);
    assert_eq!(recording.channels, 1);
    assert_eq!(recording.total_frames, 32000);
    assert!(recording.file_path.is_some());

    let h = parse_wav_header(&bytes).unwrap();
    assert_eq!(h.data_len, 32000 * 2);
    assert_eq!(h.spec.sample_rate, 16000);
    assert_eq!(h.spec.channels, 1);

    // The duration follows: 32000 frames at 16 kHz are 2.0 seconds.
    let duration = frames as f64 / rate as f64;
    assert!((duration - 2.0).abs() < 1e-9);
}

#[test]
fn sink_converts_unsigned_samples() {
    let mut sink = WavSink::new(16000, 1, SinkEncoding::Int16);
    // Offset-binary: 32768 is zero, 0 is the most negative sample.
    sink.write_samples_u16(&vec![32768u16, 0, 65535]);
    let bytes = sink.finalize();
    let h = parse_wav_header(&bytes).unwrap();
    assert_eq!(h.data_len, 6);
    let samples = whispering::wav::decode_samples_i16(&bytes, h.data_off, 3);
    assert_eq!(samples, vec![0, -32768, 32767]);
}

#[test]
fn sink_stores_float_bits_verbatim() {
    let mut sink = WavSink::new(48000, 2, SinkEncoding::Float32);
    let bits: Vec<u32> = vec![0.25f32.to_bits(), (-0.5f32).to_bits()];
    sink.write_samples_f32_bits(&bits);
    let bytes = sink.finalize();
    // An independent reader sees a float container with those values.
    let cursor = std::io::Cursor::new(&bytes);
    let mut reader = hound::WavReader::new(cursor).unwrap();
    let spec = reader.spec();
    assert_eq!(spec.sample_format, hound::SampleFormat::Float);
    assert_eq!(spec.channels, 2);
    assert_eq!(spec.sample_rate, 48000);
    let read: Vec<f32> = reader.samples::<f32>().map(|s| s.unwrap()).collect();
    assert_eq!(read, vec![0.25, -0.5]);
}
