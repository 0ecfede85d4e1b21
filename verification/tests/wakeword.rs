use assistant::audio::{
    try_get_config_with_sample_rate, InputConfig, InputConfigRange, InputDeviceReport,
    SampleFormat,
};
use assistant::frames::{append_chunk, take_frame};
use assistant::wakeword::{
    detector_format, detector_settings, is_compatible_format, record_detection, run_detection,
    DetectorFormat, DetectorSampleFormat, SampleKind, ScoreMode, WakewordConfig,
    WakewordConfigAddError, WakewordConfigBuildError, WakewordConfigStartError, WakewordSetup,
};
use rustpotter::{
    Rustpotter, RustpotterConfig, WakewordRef, WakewordRefBuildFromBuffers, WakewordSave,
};
use std::collections::HashMap;

fn input(channels: u16, sample_rate: u32, sample_format: SampleFormat) -> InputConfig {
    InputConfig { channels, sample_rate, sample_format }
}

fn device(default_config: InputConfig, ranges: Vec<InputConfigRange>) -> InputDeviceReport {
    InputDeviceReport::Device { default_config, supported: Ok(ranges) }
}

fn spotter() -> Rustpotter {
    Rustpotter::new(&RustpotterConfig::default()).unwrap()
}

fn mono16() -> WakewordSetup {
    WakewordSetup::negotiate(device(input(1, 16000, SampleFormat::I16), Vec::new())).unwrap()
}

/// One second of a sawtooth as a 16 kHz mono 16-bit WAV file.
fn wav() -> Vec<u8> {
    let samples: Vec<i16> = (0..16000i32).map(|i| ((i * 331) % 20000 - 10000) as i16).collect();
    let data_len = (samples.len() * 2) as u32;
    let mut bytes = Vec::new();
    bytes.extend_from_slice(b"RIFF");
    bytes.extend_from_slice(&(36 + data_len).to_le_bytes());
    bytes.extend_from_slice(b"WAVEfmt ");
    bytes.extend_from_slice(&16u32.to_le_bytes());
    bytes.extend_from_slice(&1u16.to_le_bytes());
    bytes.extend_from_slice(&1u16.to_le_bytes());
    bytes.extend_from_slice(&16000u32.to_le_bytes());
    bytes.extend_from_slice(&32000u32.to_le_bytes());
    bytes.extend_from_slice(&2u16.to_le_bytes());
    bytes.extend_from_slice(&16u16.to_le_bytes());
    bytes.extend_from_slice(b"data");
    bytes.extend_from_slice(&data_len.to_le_bytes());
    for sample in samples {
        bytes.extend_from_slice(&sample.to_le_bytes());
    }
    bytes
}

/// The bytes of a wakeword profile made from that sawtooth.
fn profile() -> Vec<u8> {
    let mut samples = HashMap::new();
    samples.insert("saw.wav".to_string(), wav());
    WakewordRef::new_from_sample_buffers("saw".to_string(), None, None, samples, 16)
        .unwrap()
        .save_to_buffer()
        .unwrap()
}

/// Loads that profile into the model of `config` and tells `config` of it.
fn add_profile(config: &mut WakewordConfig, name: &str) -> Result<(), WakewordConfigAddError> {
    let loaded = config.rustpotter_mut().add_wakeword_from_buffer(name, &profile());
    config.add_wakeword_from_file(loaded)
}

#[test]
fn compatible_formats_are_i16_i32_f32() {
    assert!(is_compatible_format(&SampleFormat::I16));
    assert!(is_compatible_format(&SampleFormat::I32));
    assert!(is_compatible_format(&SampleFormat::F32));
    assert!(!is_compatible_format(&SampleFormat::I8));
    assert!(!is_compatible_format(&SampleFormat::U16));
    assert!(!is_compatible_format(&SampleFormat::F64));
}

#[test]
fn preferred_rate_else_highest() {
    let range = InputConfigRange {
        channels: 1,
        min_sample_rate: 8000,
        max_sample_rate: 48000,
        sample_format: SampleFormat::I16,
    };
    assert_eq!(try_get_config_with_sample_rate(range, 16000), input(1, 16000, SampleFormat::I16));
    let high = InputConfigRange { min_sample_rate: 44100, ..range };
    assert_eq!(try_get_config_with_sample_rate(high, 16000), input(1, 48000, SampleFormat::I16));
    let low = InputConfigRange { max_sample_rate: 11025, ..range };
    assert_eq!(try_get_config_with_sample_rate(low, 16000), input(1, 11025, SampleFormat::I16));
}

#[test]
fn detector_format_follows_kind_and_width() {
    let of = |format| detector_format(&input(1, 16000, format)).map(|f| f.sample_format);
    assert_eq!(of(SampleFormat::I16), Some(DetectorSampleFormat::I16));
    assert_eq!(of(SampleFormat::I32), Some(DetectorSampleFormat::I32));
    assert_eq!(of(SampleFormat::F32), Some(DetectorSampleFormat::F32));
    assert_eq!(of(SampleFormat::I8), Some(DetectorSampleFormat::I8));
    assert_eq!(of(SampleFormat::I64), None);
    assert_eq!(of(SampleFormat::F64), None);
}

#[test]
fn setup_carries_rate_and_channels_to_the_detector() {
    let setup = WakewordSetup::negotiate(device(input(1, 44100, SampleFormat::F32), Vec::new()))
        .unwrap();
    assert_eq!(setup.input_config(), input(1, 44100, SampleFormat::F32));
    assert_eq!(
        setup.detector_format(),
        DetectorFormat { sample_rate: 44100, channels: 1, sample_format: DetectorSampleFormat::F32 }
    );
}

#[test]
fn setup_scans_supported_ranges() {
    let report = device(
        input(2, 48000, SampleFormat::I16),
        vec![
            InputConfigRange {
                channels: 2,
                min_sample_rate: 8000,
                max_sample_rate: 48000,
                sample_format: SampleFormat::I16,
            },
            InputConfigRange {
                channels: 1,
                min_sample_rate: 8000,
                max_sample_rate: 48000,
                sample_format: SampleFormat::I32,
            },
        ],
    );
    let setup = WakewordSetup::negotiate(report).unwrap();
    assert_eq!(setup.input_config(), input(1, 16000, SampleFormat::I32));
    assert_eq!(
        setup.detector_format(),
        DetectorFormat { sample_rate: 16000, channels: 1, sample_format: DetectorSampleFormat::I32 }
    );
}

#[test]
fn setup_errors() {
    assert_eq!(
        WakewordSetup::negotiate(InputDeviceReport::NoDevice).err(),
        Some(WakewordConfigBuildError::NoInputDevice)
    );
    assert_eq!(
        WakewordSetup::negotiate(InputDeviceReport::NoDefaultConfig("busy".to_string())).err(),
        Some(WakewordConfigBuildError::NoDefaultInputConfig("busy".to_string()))
    );
    assert_eq!(
        WakewordSetup::negotiate(InputDeviceReport::Device {
            default_config: input(1, 16000, SampleFormat::U8),
            supported: Err("no list".to_string()),
        })
        .err(),
        Some(WakewordConfigBuildError::ListInputConfigs("no list".to_string()))
    );
    assert_eq!(
        WakewordSetup::negotiate(device(input(1, 16000, SampleFormat::U8), Vec::new())).err(),
        Some(WakewordConfigBuildError::GetSupportedInputConfig)
    );
}

#[test]
fn config_is_built_around_the_model() {
    let config = WakewordConfig::build(mono16(), Ok(spotter())).ok().unwrap();
    assert_eq!(config.input_config(), input(1, 16000, SampleFormat::I16));
    assert!(!config.wakeword_added());
}

#[test]
fn refused_model_is_reported() {
    let built = WakewordConfig::build(mono16(), Err("bad rate".to_string()));
    assert_eq!(built.err(), Some(WakewordConfigBuildError::CreateRustpotter("bad rate".to_string())));
}

#[test]
fn start_needs_a_wakeword() {
    let config = WakewordConfig::build(mono16(), Ok(spotter())).ok().unwrap();
    assert_eq!(config.start().err(), Some(WakewordConfigStartError::NoWakewordsAdded));
}

#[test]
fn start_hands_over_the_capture() {
    let frame = spotter().get_samples_per_frame();
    let mut config = WakewordConfig::build(mono16(), Ok(spotter())).ok().unwrap();
    assert_eq!(add_profile(&mut config, "saw"), Ok(()));
    assert!(config.wakeword_added());
    let capture = config.start().ok().unwrap();
    assert_eq!(capture.sample_kind, SampleKind::I16);
    assert_eq!(capture.stream_config.channels, 1);
    assert_eq!(capture.stream_config.sample_rate, 16000);
    assert_eq!(capture.samples_per_frame, frame);
    assert_eq!(frame, 480);
}

#[test]
fn capture_sample_kind_follows_the_format() {
    for (format, kind) in [
        (SampleFormat::I32, SampleKind::I32),
        (SampleFormat::F32, SampleKind::F32),
    ] {
        let setup = WakewordSetup::negotiate(device(input(1, 16000, format), Vec::new())).unwrap();
        let mut config = WakewordConfig::build(setup, Ok(spotter())).ok().unwrap();
        assert_eq!(add_profile(&mut config, "saw"), Ok(()));
        assert_eq!(config.start().ok().unwrap().sample_kind, kind);
    }
}

#[test]
fn chunk_is_appended() {
    let mut buffer = vec![1i16, 2];
    append_chunk(&mut buffer, &[3, 4, 5]);
    assert_eq!(buffer, vec![1, 2, 3, 4, 5]);
    append_chunk(&mut buffer, &[]);
    assert_eq!(buffer, vec![1, 2, 3, 4, 5]);
}

#[test]
fn frame_is_taken_off_the_front() {
    let mut buffer = vec![1i32, 2, 3, 4, 5];
    assert_eq!(take_frame(&mut buffer, 2), vec![1, 2]);
    assert_eq!(buffer, vec![3, 4, 5]);
    assert_eq!(take_frame(&mut buffer, 3), vec![3, 4, 5]);
    assert!(buffer.is_empty());
    assert_eq!(take_frame(&mut buffer, 0), Vec::<i32>::new());
}

#[test]
fn detection_is_noted() {
    let mut detections = vec!["pizza".to_string()];
    record_detection(&mut detections, None);
    assert_eq!(detections, vec!["pizza".to_string()]);
    record_detection(&mut detections, Some("saw".to_string()));
    assert_eq!(detections, vec!["pizza".to_string(), "saw".to_string()]);
}

#[test]
fn unread_profile_changes_nothing() {
    let mut config = WakewordConfig::build(mono16(), Ok(spotter())).ok().unwrap();
    assert_eq!(
        config.add_wakeword_from_file(Err("no such file".to_string())),
        Err(WakewordConfigAddError("no such file".to_string()))
    );
    assert!(!config.wakeword_added());
    assert_eq!(config.start().err(), Some(WakewordConfigStartError::NoWakewordsAdded));
}

#[test]
fn malformed_profile_is_refused() {
    let mut config = WakewordConfig::build(mono16(), Ok(spotter())).ok().unwrap();
    let loaded = config.rustpotter_mut().add_wakeword_from_buffer("saw", &[1, 2, 3, 4]);
    assert!(loaded.is_err());
    let reason = loaded.clone().unwrap_err();
    assert_eq!(config.add_wakeword_from_file(loaded), Err(WakewordConfigAddError(reason)));
    assert!(!config.wakeword_added());
}

#[test]
fn refused_profile_after_a_good_one_keeps_the_good_one() {
    let mut config = WakewordConfig::build(mono16(), Ok(spotter())).ok().unwrap();
    assert_eq!(add_profile(&mut config, "saw"), Ok(()));
    assert!(config.add_wakeword_from_file(Err("refused".to_string())).is_err());
    assert!(config.wakeword_added());
    assert!(config.start().is_ok());
}

#[test]
fn profile_that_the_model_took_is_added() {
    let mut config = WakewordConfig::build(mono16(), Ok(spotter())).ok().unwrap();
    assert_eq!(config.add_wakeword_from_file(Ok(())), Ok(()));
    assert!(config.wakeword_added());
}

#[test]
fn detector_is_made_eager_with_ten_scores() {
    let settings = detector_settings();
    assert_eq!(settings.min_scores, 10);
    assert!(settings.eager);
    assert_eq!(settings.score_mode, ScoreMode::Max);
    assert_eq!(settings.vad_mode, None);
    assert!(!settings.gain_normalizer);
    assert!(!settings.band_pass);
}

#[test]
fn whole_frames_are_taken_and_the_rest_waits() {
    let mut buffer = vec![0.5f32, 1.5];
    let frames = run_detection(&[2.5, 3.5, 4.5, 5.5, 6.5, 7.5], &mut buffer, 3);
    assert_eq!(frames, vec![vec![0.5, 1.5, 2.5], vec![3.5, 4.5, 5.5]]);
    assert_eq!(buffer, vec![6.5, 7.5]);
    let frames = run_detection(&[8.5], &mut buffer, 3);
    assert_eq!(frames, vec![vec![6.5, 7.5, 8.5]]);
    assert!(buffer.is_empty());
    let frames = run_detection(&[9.5], &mut buffer, 3);
    assert!(frames.is_empty());
    assert_eq!(buffer, vec![9.5]);
}

#[test]
fn two_halves_make_the_one_frame_that_is_scored() {
    let mut buffer: Vec<i16> = Vec::new();
    assert!(run_detection(&[1, 2], &mut buffer, 4).is_empty());
    assert_eq!(buffer, vec![1, 2]);
    assert_eq!(run_detection(&[3, 4], &mut buffer, 4), vec![vec![1, 2, 3, 4]]);
    assert!(buffer.is_empty());
}

#[test]
fn frames_are_cut_from_the_front_in_order() {
    let mut buffer = vec![1i16, 2];
    let frames = run_detection(&[3, 4, 5, 6, 7], &mut buffer, 3);
    assert_eq!(frames, vec![vec![1, 2, 3], vec![4, 5, 6]]);
    assert_eq!(buffer, vec![7]);
}

#[test]
fn pieces_of_one_frame_are_scored_once() {
    let mut model = spotter();
    let frame = model.get_samples_per_frame();
    let mut buffer: Vec<i16> = Vec::new();
    let pieces = [frame / 3, frame / 3, frame - 2 * (frame / 3)];
    let mut scored = 0;
    for (i, piece) in pieces.iter().enumerate() {
        let frames = run_detection(&vec![3i16; *piece], &mut buffer, frame);
        if i < 2 {
            assert!(frames.is_empty());
            assert_eq!(buffer.len(), (i + 1) * (frame / 3));
        }
        for samples in frames {
            assert_eq!(samples, vec![3i16; frame]);
            assert!(model.process_samples(samples).is_none());
            scored += 1;
        }
    }
    assert_eq!(scored, 1);
    assert!(buffer.is_empty());
    // a further chunk starts afresh
    assert!(run_detection(&[7i16, 8, 9], &mut buffer, frame).is_empty());
    assert_eq!(buffer, vec![7, 8, 9]);
}

#[test]
fn long_chunk_is_cut_frame_by_frame() {
    let frame = 480;
    let mut buffer: Vec<i32> = vec![5; 10];
    let data: Vec<i32> = (0..(3 * frame as i32 + 7)).collect();
    let frames = run_detection(&data, &mut buffer, frame);
    let total: Vec<i32> = vec![5; 10].into_iter().chain(data.into_iter()).collect();
    assert_eq!(frames.len(), 3);
    for (k, samples) in frames.iter().enumerate() {
        assert_eq!(samples[..], total[k * frame..(k + 1) * frame]);
    }
    assert_eq!(buffer, total[3 * frame..].to_vec());
    assert_eq!(buffer.len(), 17);
}

#[test]
fn spotter_hears_its_own_profile() {
    // the model is fed the recording that its profile was made from
    let mut config = WakewordConfig::build(mono16(), Ok(spotter())).ok().unwrap();
    assert_eq!(add_profile(&mut config, "saw"), Ok(()));
    let mut capture = config.start().ok().unwrap();
    let samples: Vec<i16> = (0..16000i32).map(|i| ((i * 331) % 20000 - 10000) as i16).collect();
    let mut buffer = Vec::new();
    let mut scored = 0;
    let mut detections = Vec::new();
    for _ in 0..3 {
        for chunk in samples.chunks(700) {
            for frame in run_detection(chunk, &mut buffer, capture.samples_per_frame) {
                let detected = capture.rustpotter.process_samples(frame).map(|d| d.name);
                record_detection(&mut detections, detected);
                scored += 1;
            }
        }
    }
    assert_eq!(scored, 3 * 16000 / 480);
    assert_eq!(buffer.len(), 3 * 16000 % 480);
    assert!(detections.iter().all(|name| name == "saw"));
}
