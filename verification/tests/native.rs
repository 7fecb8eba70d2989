use joi::config::Config;
use joi::media::FrameEncoding;
use joi::native::capture::{
    capture_step, first_channel, gated, pick_device, sample_kind, stages, CaptureEvent,
    CapturePipeline, CaptureStep, DeviceChoice, SampleFormat, SampleKind, APM_FRAME,
    MAX_RENDER_BACKLOG,
};
use joi::native::engine::{MediaConfig, MediaEngine, MediaError, NoiseSuppressionMode};
use joi::native::playback::{block_frames, playback_command, spread, Playback, PlaybackCmd};
use joi::native::recorder::{header, ProcessedMicRecorder};
use joi::native::screen::{encode_frame, frame_of, shrink, RgbaPicture};

#[test]
fn writes_valid_wav_sizes() {
    let mut recorder = ProcessedMicRecorder::new();
    let mut file = header(0);
    let bytes = recorder.write_samples(&[0, 1, -1, i16::MAX]);
    file.extend(&bytes);
    recorder.wrote(&bytes, true);
    let last = recorder.finish();
    file[..44].copy_from_slice(&last);

    assert_eq!(&file[0..4], b"RIFF");
    assert_eq!(&file[8..12], b"WAVE");
    assert_eq!(&file[12..16], b"fmt ");
    assert_eq!(&file[36..40], b"data");
    let number = |at: usize| u32::from_le_bytes([file[at], file[at + 1], file[at + 2], file[at + 3]]);
    assert_eq!(number(4), 44);
    assert_eq!(number(24), 16_000);
    assert_eq!(number(28), 32_000);
    assert_eq!(number(40), 8);
    assert_eq!(file.len(), 44 + 8);
}

#[test]
fn a_recording_stops_at_what_a_header_can_state() {
    let mut recorder = ProcessedMicRecorder::new();
    recorder.data_bytes = u32::MAX - 3;
    assert_eq!(recorder.write_samples(&[1, 2, 3]), vec![1, 0]);
    assert_eq!(&recorder.finish()[4..8], &[0xff; 4]);
    recorder.wrote(&[], false);
    assert!(recorder.failed);
    assert!(recorder.write_samples(&[1]).is_empty());
}

fn names(list: &[&str]) -> Vec<String> {
    list.iter().map(|s| s.to_string()).collect()
}

#[test]
fn devices_are_picked_by_name() {
    let list = names(&["hw:0", "usb", "usb"]);
    assert_eq!(pick_device(&list, "default"), DeviceChoice::Default);
    assert_eq!(pick_device(&list, "usb"), DeviceChoice::Listed(1));
    assert_eq!(pick_device(&list, "gone"), DeviceChoice::Missing);
}

#[test]
fn the_first_channel_is_taken() {
    assert_eq!(first_channel(&[1, 2, 3, 4, 5], 2), vec![1, 3, 5]);
    assert_eq!(first_channel(&[1, 2, 3], 1), vec![1, 2, 3]);
    assert_eq!(first_channel(&[1, 2, 3], 0), vec![1, 2, 3]);
    assert_eq!(first_channel(&[0.5f32, 0.25], 2), vec![0.5]);
    assert_eq!(first_channel::<i16>(&[], 2), Vec::<i16>::new());
}

#[test]
fn stages_follow_the_configuration() {
    let mut cfg = MediaConfig::from_config(&Config::default());
    assert_eq!(cfg.frame_samples, 320);
    assert_eq!(cfg.noise_suppression, NoiseSuppressionMode::Classic);
    let s = stages(&cfg, 0);
    assert!(s.echo_cancellation && s.high_pass_filter && s.classic_noise && !s.neural_noise);
    assert!(s.gain && s.leveler);
    cfg.auto_gain = false;
    cfg.noise_suppression = NoiseSuppressionMode::Ai;
    let s = stages(&cfg, 0.0f32.to_bits());
    assert!(!s.gain && s.neural_noise && !s.classic_noise);
    assert!(stages(&cfg, 12.0f32.to_bits()).gain);
    assert!(!stages(&cfg, (-3.0f32).to_bits()).gain);
    assert!(!stages(&cfg, f32::NAN.to_bits()).gain);
    assert!(!stages(&cfg, (-0.0f32).to_bits()).gain);
}

#[test]
fn every_frame_is_paired_with_what_was_played() {
    let mut p = CapturePipeline::new(16_000, 16_000, 320, true);
    p.buffer_render(&vec![7i16; 200]);
    let frames = p.process(&vec![1i16; 350]);
    assert_eq!(frames.len(), 2);
    assert_eq!(frames[0].near, vec![1i16; APM_FRAME]);
    assert_eq!(frames[0].far, Some(vec![7i16; APM_FRAME]));
    assert_eq!(frames[1].far, Some(vec![0i16; APM_FRAME]));
    let more = p.process(&vec![2i16; 150]);
    assert_eq!(more.len(), 1);
    assert_eq!(more[0].near[..30], vec![1i16; 30]);
    assert_eq!(more[0].near[30], 2);
    assert!(p.emit(&vec![3i16; 160]).is_empty());
    assert_eq!(p.emit(&vec![4i16; 160]).len(), 1);
}

#[test]
fn without_echo_cancellation_nothing_played_is_kept() {
    let mut p = CapturePipeline::new(48_000, 48_000, 320, false);
    p.buffer_render(&vec![7i16; 4_800]);
    let frames = p.process(&vec![1i16; 480]);
    assert_eq!(frames.len(), 1);
    assert_eq!(frames[0].far, None);
    assert_eq!(p.report_backlog(), (0, 0));
}

#[test]
fn what_waits_is_bounded() {
    let mut p = CapturePipeline::new(16_000, 16_000, 320, true);
    p.buffer_render(&vec![1i16; MAX_RENDER_BACKLOG]);
    p.buffer_render(&vec![2i16; 100]);
    assert_eq!(p.report_backlog(), (200, 100));
    assert_eq!(p.report_backlog(), (0, 0));
    let frames = p.process(&vec![0i16; MAX_RENDER_BACKLOG]);
    assert_eq!(frames.len(), 20);
    assert_eq!(frames[19].far.as_ref().map(|f| f[APM_FRAME - 1]), Some(2));
}

#[test]
fn an_empty_frame_flushes() {
    assert_eq!(playback_command(Vec::new()), PlaybackCmd::Flush);
    assert_eq!(playback_command(vec![1]), PlaybackCmd::Pcm(vec![1]));
}

#[test]
fn audio_is_played_at_the_rate_of_the_device() {
    let mut p = Playback::new(48_000);
    p.enqueue(&[10, 20]);
    assert_eq!(p.pull(5), vec![10, 15, 20, 20, 0]);
    p.enqueue(&[1, 2, 3]);
    p.flush();
    assert_eq!(p.pull(1), vec![0]);
}

#[test]
fn one_channel_is_spread_over_all() {
    assert_eq!(spread(&[1i16, 2], 3), vec![1, 1, 1, 2, 2, 2]);
    assert_eq!(spread(&[0.5f32], 2), vec![0.5, 0.5]);
    assert!(spread(&[1i16], 0).is_empty());
    assert_eq!(block_frames(7, 2), 3);
    assert_eq!(block_frames(7, 0), 7);
}

#[test]
fn starting_twice_starts_once() {
    let cfg = MediaConfig::from_config(&Config::default());
    let mut e = MediaEngine::new(&cfg);
    assert_eq!(e.start_capture().map(|s| s.render_rate), Some(24_000));
    assert!(e.render_enabled);
    assert_eq!(e.start_capture(), None);
    e.stop_capture();
    assert!(!e.capturing && !e.render_enabled);
    e.playback_started(44_100);
    assert_eq!(e.start_capture().map(|s| s.render_rate), Some(44_100));
    assert!(e.start_screenshare());
    assert!(!e.start_screenshare());
    e.stop_screenshare();
    assert!(!e.sharing);
    e.set_mic_muted(true);
    assert!(e.mic_muted);
}

#[test]
fn media_errors_have_words() {
    assert_eq!(MediaError::NoInputDevice.to_string(), "no default audio input device");
    assert_eq!(MediaError::NoOutputDevice.to_string(), "no default audio output device");
    assert_eq!(
        MediaError::UnsupportedFormat("U8".to_string()).to_string(),
        "unsupported sample format: U8"
    );
    assert_eq!(MediaError::Backend("x".to_string()).to_string(), "audio backend error: x");
}

fn picture(width: u32, height: u32) -> RgbaPicture {
    let mut data = Vec::new();
    for i in 0..width * height {
        data.extend([(i % 251) as u8, 100, 200, 255]);
    }
    RgbaPicture { width, height, data }
}

#[test]
fn pictures_are_shrunk_in_proportion() {
    let small = shrink(picture(64, 32), 16);
    assert_eq!((small.width, small.height), (16, 8));
    assert_eq!(small.data.len(), 4 * 16 * 8);
    let same = shrink(picture(16, 8), 16);
    assert_eq!(same, picture(16, 8));
    let upright = shrink(picture(32, 64), 16);
    assert_eq!((upright.width, upright.height), (8, 16));
    assert_eq!(upright.data.len(), 4 * 16 * 8);
    assert_eq!(shrink(picture(8, 16), 16), picture(8, 16));
}

#[test]
fn the_longest_edge_of_a_frame_is_capped() {
    let frame = encode_frame(picture(108, 192), 120, 80).unwrap();
    assert_eq!((frame.width, frame.height), (67, 119));
    let frame = encode_frame(picture(192, 108), 120, 80).unwrap();
    assert_eq!((frame.width, frame.height), (119, 67));
}

#[test]
fn frames_are_jpeg_that_decodes_to_their_size() {
    let frame = encode_frame(picture(64, 32), 32, 80).unwrap();
    assert_eq!((frame.width, frame.height), (32, 16));
    assert_eq!(frame.encoding, FrameEncoding::Jpeg);
    assert_eq!(&frame.data[..2], &[0xff, 0xd8]);
    let decoded = image::load_from_memory(&frame.data).unwrap().to_rgb8();
    assert_eq!((decoded.width(), decoded.height()), (32, 16));
    let p = decoded.get_pixel(5, 5);
    assert!((i32::from(p[1]) - 100).abs() < 20 && (i32::from(p[2]) - 200).abs() < 20, "{p:?}");
    assert!(encode_frame(picture(0, 0), 32, 80).is_err());
    assert!(matches!(
        frame_of(Err("x".to_string()), 1, 1),
        Err(MediaError::Backend(e)) if e == "x"
    ));
}

#[test]
fn samples_of_other_forms_are_refused() {
    assert_eq!(sample_kind(&SampleFormat::F32), Ok(SampleKind::Float));
    assert_eq!(sample_kind(&SampleFormat::I16), Ok(SampleKind::Integer));
    assert_eq!(
        sample_kind(&SampleFormat::Other("U8".to_string())),
        Err(MediaError::UnsupportedFormat("U8".to_string()))
    );
}

#[test]
fn a_muted_microphone_hands_nothing_on() {
    assert_eq!(gated(&[1, 2, 3, 4], 2, false), Some(vec![1, 3]));
    assert_eq!(gated(&[1, 2, 3, 4], 2, true), None);
}

#[test]
fn the_capture_ends_when_it_is_let_go() {
    let step = |event: CaptureEvent| capture_step(event);
    assert_eq!(step(CaptureEvent::Turn { stopped: true }), CaptureStep::Stop);
    assert_eq!(step(CaptureEvent::Turn { stopped: false }), CaptureStep::Wait);
    assert_eq!(step(CaptureEvent::Samples), CaptureStep::Process);
    assert_eq!(step(CaptureEvent::Timeout), CaptureStep::Again);
    assert_eq!(step(CaptureEvent::Disconnected), CaptureStep::Stop);
}
