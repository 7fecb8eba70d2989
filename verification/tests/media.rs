use joi::capture::CaptureQuality;
use joi::clock::{moved_on, timestamp, Clock, SystemClock, TestClock};
use joi::double::{divide, round};
use joi::media::{
    frames, le_bytes_to_pcm16, pcm16_to_le_bytes, peak_magnitude, resample_linear, AudioFormat,
    FrameAccumulator, JitterBuffer,
};
use joi::metrics::{growth_of, MetricsSnapshot, ThroughputMeter};

#[test]
fn input_frame_is_320_samples_at_20ms() {
    assert_eq!(AudioFormat::input().samples_per_frame(20), 320);
    assert_eq!(AudioFormat::output().samples_per_frame(20), 480);
}

#[test]
fn framing_splits_into_20ms_frames() {
    let pcm = vec![0i16; 320 * 3 + 100];
    let chunks: Vec<&[i16]> = frames(&pcm, 320);
    assert_eq!(chunks.len(), 4);
    assert_eq!(chunks[0].len(), 320);
    assert_eq!(chunks[3].len(), 100);
}

#[test]
fn framing_by_zero_counts_as_one() {
    let pcm = vec![7i16, 8, 9];
    let chunks = frames(&pcm, 0);
    assert_eq!(chunks, vec![&[7i16][..], &[8][..], &[9][..]]);
    assert!(frames(&[], 320).is_empty());
}

#[test]
fn pcm_byte_roundtrip() {
    let pcm = vec![0i16, 1, -1, 32767, -32768, 12345];
    let bytes = pcm16_to_le_bytes(&pcm);
    assert_eq!(bytes.len(), pcm.len() * 2);
    assert_eq!(le_bytes_to_pcm16(&bytes), pcm);
}

#[test]
fn pcm_bytes_are_low_byte_first() {
    assert_eq!(pcm16_to_le_bytes(&[0x1234, -2]), vec![0x34, 0x12, 0xfe, 0xff]);
}

#[test]
fn torn_trailing_byte_is_ignored() {
    let bytes = vec![1u8, 0, 2];
    assert_eq!(le_bytes_to_pcm16(&bytes), vec![1i16]);
}

#[test]
fn resample_equal_rate_or_empty_is_identity() {
    let pcm = vec![1i16, 2, 3, 4];
    assert_eq!(resample_linear(&pcm, 16_000, 16_000), pcm);
    assert_eq!(resample_linear(&[], 48_000, 16_000), Vec::<i16>::new());
    assert_eq!(resample_linear(&pcm, 0, 16_000), pcm);
}

#[test]
fn resample_downsample_shortens_by_ratio() {
    let pcm = vec![0i16; 480];
    let out = resample_linear(&pcm, 48_000, 16_000);
    assert_eq!(out.len(), 160);
}

#[test]
fn resample_keeps_silence_silent() {
    assert!(resample_linear(&vec![0i16; 441], 44_100, 16_000).iter().all(|&s| s == 0));
}

#[test]
fn frame_accumulator_emits_full_frames_and_buffers_remainder() {
    let mut acc = FrameAccumulator::new(320);
    let frames = acc.push(&vec![0i16; 320 * 3 + 100]);
    assert_eq!(frames.len(), 3);
    assert!(frames.iter().all(|f| f.len() == 320));
    assert_eq!(acc.buffered(), 100);
    let more = acc.push(&vec![0i16; 220]);
    assert_eq!(more.len(), 1);
    assert_eq!(acc.buffered(), 0);
}

#[test]
fn how_a_stream_is_cut_does_not_matter() {
    let stream: Vec<i16> = (0..23).collect();
    let mut whole = FrameAccumulator::new(4);
    let at_once = whole.push(&stream);
    for size in 1..8 {
        let mut acc = FrameAccumulator::new(4);
        let frames: Vec<Vec<i16>> = stream.chunks(size).flat_map(|c| acc.push(c)).collect();
        assert_eq!(frames, at_once);
        assert_eq!(acc.buffered(), whole.buffered());
    }
    assert_eq!((at_once.len(), whole.buffered()), (5, 3));
}

#[test]
fn chunks_queue_as_if_joined() {
    let (mut parts, mut whole) = (JitterBuffer::new(), JitterBuffer::new());
    parts.enqueue(&[1, 2]);
    parts.enqueue(&[3]);
    whole.enqueue(&[1, 2, 3]);
    assert_eq!((parts.buffered(), whole.buffered()), (3, 3));
    assert_eq!(parts.pull(4), whole.pull(4));
}

#[test]
fn frames_and_remainder_are_what_was_pushed() {
    let mut acc = FrameAccumulator::new(4);
    let mut got: Vec<i16> = Vec::new();
    for chunk in [&[1i16, 2, 3][..], &[4, 5][..], &[6, 7, 8, 9, 10][..]] {
        for frame in acc.push(chunk) {
            assert_eq!(frame.len(), 4);
            got.extend(frame);
        }
    }
    assert_eq!(got, vec![1, 2, 3, 4, 5, 6, 7, 8]);
    assert_eq!(acc.buffered(), 2);
}

#[test]
fn jitter_buffer_pulls_then_pads_with_silence_and_flushes() {
    let mut jb = JitterBuffer::new();
    jb.enqueue(&[1, 2, 3]);
    assert_eq!(jb.buffered(), 3);
    assert_eq!(jb.pull(2), vec![1, 2]);
    assert_eq!(jb.pull(3), vec![3, 0, 0]);
    jb.enqueue(&[9, 9]);
    jb.flush();
    assert_eq!(jb.buffered(), 0);
    assert_eq!(jb.pull(2), vec![0, 0]);
}

#[test]
fn pulling_in_parts_is_pulling_at_once() {
    let mut parts = JitterBuffer::new();
    let mut whole = JitterBuffer::new();
    parts.enqueue(&[1, 2, 3, 4]);
    whole.enqueue(&[1, 2, 3, 4]);
    let mut got = parts.pull(1);
    got.extend(parts.pull(5));
    assert_eq!(got, whole.pull(6));
}

#[test]
fn peak_is_the_largest_magnitude() {
    assert_eq!(peak_magnitude(&[]), 0);
    assert_eq!(peak_magnitude(&[3, -7, 5]), 7);
    assert_eq!(peak_magnitude(&[-32768, 32767]), 32768);
}

#[test]
fn media_quality_clamps_into_range_and_under_ceilings() {
    let q = joi::media::CaptureQuality { fps: 999, max_width: 100_000, quality: 200 };
    let c = q.clamped(30, 1920);
    assert_eq!(c.fps, 30);
    assert_eq!(c.max_width, 1920);
    assert_eq!(c.quality, 100);

    let zero = joi::media::CaptureQuality { fps: 0, max_width: 0, quality: 0 };
    let c = zero.clamped(30, 1920);
    assert_eq!(c.fps, 1);
    assert_eq!(c.max_width, 1);
    assert_eq!(c.quality, 1);
}

#[test]
fn capture_quality_clamps_into_range_and_under_ceilings() {
    let q = CaptureQuality { fps: 999, max_width: 100_000, quality: 200 };
    let c = q.clamped(30, 1920);
    assert_eq!(c.fps, 30);
    assert_eq!(c.max_width, 1920);
    assert_eq!(c.quality, 100);

    let zero = CaptureQuality { fps: 0, max_width: 0, quality: 0 };
    let c = zero.clamped(30, 1920);
    assert_eq!(c.fps, 1);
    assert_eq!(c.max_width, 1);
    assert_eq!(c.quality, 1);
}

#[test]
fn test_clock_advances_only_when_told() {
    let c = TestClock::new(1_000);
    assert_eq!(c.now_ms(), 1_000);
    assert_eq!(c.advance(500), 1_500);
    assert_eq!(c.now_ms(), 1_500);
    c.set(42);
    assert_eq!(c.now_ms(), 42);
}

#[test]
fn test_clock_clone_shares_counter() {
    let a = TestClock::new(0);
    let b = a.clone();
    a.advance(10);
    assert_eq!(b.now_ms(), 10);
}

#[test]
fn a_clock_moves_on_past_the_last_timestamp() {
    assert_eq!(moved_on(1_000, 500), 1_500);
    assert_eq!(moved_on(u64::MAX, 3), 2);
    let c = TestClock::new(u64::MAX);
    assert_eq!(c.advance(3), 2);
    assert_eq!(c.now_ms(), 2);
}

#[test]
fn system_clock_is_after_2020() {
    assert!(SystemClock.now_ms() > 1_577_836_800_000);
}

#[test]
fn a_clock_before_the_epoch_reads_zero() {
    assert_eq!(timestamp(None), 0);
    assert_eq!(timestamp(Some(1_577_836_800_001)), 1_577_836_800_001);
    assert_eq!(timestamp(Some(u128::from(u64::MAX) + 3)), 2);
}

fn up_kbps(m: &MetricsSnapshot) -> f64 {
    m.up_bits as f64 * 1e6 / m.window_ns as f64
}

fn down_kbps(m: &MetricsSnapshot) -> f64 {
    m.down_bits as f64 * 1e6 / m.window_ns as f64
}

fn up_tokens_per_sec(m: &MetricsSnapshot) -> f64 {
    m.up_quarter_tokens as f64 * 250e6 / m.window_ns as f64
}

fn down_tokens_per_sec(m: &MetricsSnapshot) -> f64 {
    m.down_quarter_tokens as f64 * 250e6 / m.window_ns as f64
}

#[test]
fn sample_converts_bytes_to_kbps() {
    let mut m = ThroughputMeter::new();
    m.add_up(1000);
    m.add_down(2000);
    let snap = m.sample(1_000_000_000).unwrap();
    assert_eq!(up_kbps(&snap), 8.0);
    assert_eq!(down_kbps(&snap), 16.0);
}

#[test]
fn rate_scales_with_elapsed_window() {
    let mut m = ThroughputMeter::new();
    m.add_up(1000);
    let snap = m.sample(500_000_000).unwrap();
    assert_eq!(up_kbps(&snap), 16.0);
}

#[test]
fn tokens_use_chars_over_four() {
    let mut m = ThroughputMeter::new();
    m.add_output_text("abcd");
    m.add_output_text("efgh");
    m.add_input_text("wxyz");
    let snap = m.sample(2_000_000_000).unwrap();
    assert_eq!(down_tokens_per_sec(&snap), 1.0);
    assert_eq!(up_tokens_per_sec(&snap), 0.5);
}

#[test]
fn sample_drains_the_window() {
    let mut m = ThroughputMeter::new();
    m.add_up(1000);
    let _ = m.sample(1_000_000_000).unwrap();
    let next = m.sample(1_000_000_000).unwrap();
    assert_eq!(next, MetricsSnapshot::zero());
    let longer = m.sample(2_500_000_000).unwrap();
    assert_eq!((up_kbps(&longer), down_tokens_per_sec(&longer)), (0.0, 0.0));
}

#[test]
fn zero_elapsed_yields_no_sample_and_keeps_counters() {
    let mut m = ThroughputMeter::new();
    m.add_up(1000);
    assert!(m.sample(0).is_none());
    let snap = m.sample(1_000_000_000).unwrap();
    assert_eq!(up_kbps(&snap), 8.0);
}

#[test]
fn a_window_may_be_shorter_than_a_millisecond() {
    let mut m = ThroughputMeter::new();
    m.add_up(1000);
    let snap = m.sample(250_000).unwrap();
    assert_eq!(up_kbps(&snap), 32_000.0);
    assert_eq!(m, ThroughputMeter::new());
}

#[test]
fn counters_saturate_and_growth_is_never_negative() {
    let mut m = ThroughputMeter::new();
    m.add_up(u64::MAX);
    m.add_up(1);
    assert_eq!(m.up_bytes, u64::MAX);
    assert_eq!(growth_of(7, 3), 4);
    assert_eq!(growth_of(3, 7), 0);
}

/// Resampling as it is computed in doubles.
fn resampled_in_doubles(input: &[i16], in_rate: u32, out_rate: u32) -> Vec<i16> {
    let ratio = f64::from(in_rate) / f64::from(out_rate);
    let out_len = (input.len() as f64 / ratio).floor() as usize;
    (0..out_len)
        .map(|i| {
            let pos = i as f64 * ratio;
            let i0 = pos.floor() as usize;
            let i1 = (i0 + 1).min(input.len() - 1);
            let frac = pos - i0 as f64;
            (f64::from(input[i0]) * (1.0 - frac) + f64::from(input[i1]) * frac).round() as i16
        })
        .collect()
}

#[test]
fn resampling_is_what_doubles_give() {
    let mut noise: u32 = 1;
    let pcm: Vec<i16> = (0..960)
        .map(|i| {
            noise = noise.wrapping_mul(1_664_525).wrapping_add(1_013_904_223);
            match i % 50 {
                0 => i16::MIN,
                1 => i16::MAX,
                _ => (noise >> 16) as i16,
            }
        })
        .collect();
    let rates = [1, 8_000, 11_025, 16_000, 22_050, 24_000, 44_100, 48_000, 96_000, u32::MAX];
    for in_rate in rates {
        for out_rate in rates {
            if in_rate == out_rate || out_rate / in_rate > 100 {
                continue;
            }
            for len in [1, 2, 160, 240, 441, 480, 960] {
                assert_eq!(
                    resample_linear(&pcm[..len], in_rate, out_rate),
                    resampled_in_doubles(&pcm[..len], in_rate, out_rate),
                    "{len} samples from {in_rate} to {out_rate}"
                );
            }
        }
    }
    assert_eq!(resample_linear(&vec![0; 480], 24_000, 44_100).len(), 881);
}

#[test]
fn doubles_keep_53_bits() {
    assert_eq!(round(5), 5);
    assert_eq!(round(-(1 << 53)), -(1 << 53));
    assert_eq!(round((1 << 53) + 1), 1 << 53);
    assert_eq!(round((1 << 53) + 3), (1 << 53) + 4);
    assert_eq!(round(-(1 << 60) - 129), -(1 << 60) - 256);
    for x in [3i128, 0x1234_5678_9abc_def0_1234, (1 << 80) + 12345, -((1 << 90) / 7)] {
        assert_eq!(round(x) as f64, x as f64);
    }
    let third = divide(1, 3);
    assert_eq!(third.num as f64 / third.den as f64, 1.0 / 3.0);
    assert_eq!(third.num >> 52, 1);
}
