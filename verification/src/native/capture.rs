//! The microphone: which device, which channel, which stages, and the pairing of what is heard with
//! what is played.
use vstd::prelude::*;
use vstd::string::*;

use crate::media::FrameAccumulator;

use super::engine::{MediaConfig, MediaError, NoiseSuppressionMode};

verus! {

/// The rate at which the microphone is processed.
pub const APM_RATE: u32 = 16_000;

/// The samples that are processed at once: ten milliseconds.
pub const APM_FRAME: usize = 160;

/// The most played samples that wait to be paired.
pub const MAX_RENDER_BACKLOG: usize = 3_200;

/// Where a device of this name stands in a list, or its length.
pub open spec fn device_at(names: Seq<Seq<char>>, name: Seq<char>) -> int
    decreases names.len(),
{
    if names.len() == 0 || names[0] == name {
        0
    } else {
        1 + device_at(names.drop_first(), name)
    }
}

/// Which device to open.
#[derive(Debug, Clone, Copy, PartialEq, Eq, Structural)]
pub enum DeviceChoice {
    /// The host's default, as asked.
    Default,
    /// One of the list.
    Listed(usize),
    /// The host's default, since the one that was asked for is not there.
    Missing,
}

/// Which device to open: the default by name, else the first of that name, else the default. A name
/// that is no longer there never stops the capture.
pub fn pick_device(names: &[String], name: &str) -> (r: DeviceChoice)
    ensures
        ({
            let all = crate::text::views(names@);
            let k = device_at(all, name@);
            if name@ == "default"@ {
                r == DeviceChoice::Default
            } else if k < all.len() {
                r matches DeviceChoice::Listed(i) && i == k && all[i as int] == name@
            } else {
                r == DeviceChoice::Missing
            }
        }),
{
    if crate::text::same(name, "default") {
        return DeviceChoice::Default;
    }
    let ghost all = crate::text::views(names@);
    let mut i: usize = 0;
    assert(all.skip(0) =~= all);
    while i < names.len()
        invariant
            i <= names.len(),
            all == crate::text::views(names@),
            name@ != "default"@,
            device_at(all, name@) == i + device_at(all.skip(i as int), name@),
        decreases names.len() - i,
    {
        assert(all.skip(i as int)[0] == names@[i as int]@);
        if crate::text::same(names[i].as_str(), name) {
            return DeviceChoice::Listed(i);
        }
        assert(all.skip(i as int).drop_first() =~= all.skip(i + 1));
        i = i + 1;
    }
    DeviceChoice::Missing
}

/// The form of a device's samples.
#[derive(Debug, PartialEq, Eq)]
pub enum SampleFormat {
    /// Singles at full scale.
    F32,
    /// 16-bit integers.
    I16,
    /// Another one, by its name.
    Other(String),
}

/// A form of samples that is taken from a device or given to it.
#[derive(Debug, Clone, Copy, PartialEq, Eq, Structural)]
pub enum SampleKind {
    /// Singles at full scale.
    Float,
    /// 16-bit integers.
    Integer,
}

/// Which of the forms a device has; one that is neither is an error that names it.
pub fn sample_kind(format: &SampleFormat) -> (r: Result<SampleKind, MediaError>)
    ensures
        match *format {
            SampleFormat::F32 => r == Ok::<SampleKind, MediaError>(SampleKind::Float),
            SampleFormat::I16 => r == Ok::<SampleKind, MediaError>(SampleKind::Integer),
            SampleFormat::Other(name) => r matches Err(MediaError::UnsupportedFormat(s)) && s@
                == name@,
        },
{
    match format {
        SampleFormat::F32 => Ok(SampleKind::Float),
        SampleFormat::I16 => Ok(SampleKind::Integer),
        SampleFormat::Other(name) => Err(MediaError::UnsupportedFormat(name.clone())),
    }
}

/// What the capture thread meets.
#[derive(Debug, Clone, Copy, PartialEq, Eq, Structural)]
pub enum CaptureEvent {
    /// A new turn of its loop.
    Turn {
        /// Whether nobody holds the capture any more.
        stopped: bool,
    },
    /// The device gave samples.
    Samples,
    /// The device gave nothing for a while, as it does while muted.
    Timeout,
    /// The device is gone.
    Disconnected,
}

/// What the capture thread does next.
#[derive(Debug, Clone, Copy, PartialEq, Eq, Structural)]
pub enum CaptureStep {
    /// Take in what was played, then wait for samples.
    Wait,
    /// Process the samples, then begin a new turn.
    Process,
    /// Begin a new turn.
    Again,
    /// End.
    Stop,
}

/// What the capture thread does next. It looks for the stop in every turn, also while samples keep
/// coming: a thread that looked only when they fail to come would never end.
pub fn capture_step(event: CaptureEvent) -> (r: CaptureStep)
    ensures
        r == match event {
            CaptureEvent::Turn { stopped } => if stopped {
                CaptureStep::Stop
            } else {
                CaptureStep::Wait
            },
            CaptureEvent::Samples => CaptureStep::Process,
            CaptureEvent::Timeout => CaptureStep::Again,
            CaptureEvent::Disconnected => CaptureStep::Stop,
        },
{
    match event {
        CaptureEvent::Turn { stopped } => if stopped {
            CaptureStep::Stop
        } else {
            CaptureStep::Wait
        },
        CaptureEvent::Samples => CaptureStep::Process,
        CaptureEvent::Timeout => CaptureStep::Again,
        CaptureEvent::Disconnected => CaptureStep::Stop,
    }
}

/// How many frames of `channels` samples there are, a last one that is not whole counted in.
pub open spec fn channel_frames(len: int, channels: int) -> int {
    (len + channels - 1) / channels
}

/// The number of channels, at least one.
pub open spec fn step_of(channels: usize) -> int {
    if channels >= 1 {
        channels as int
    } else {
        1
    }
}

/// The first channel of interleaved samples.
pub open spec fn first_of_each<T>(input: Seq<T>, channels: usize) -> Seq<T> {
    Seq::new(
        channel_frames(input.len() as int, step_of(channels)) as nat,
        |i: int| input[i * step_of(channels)],
    )
}

/// Each sample of `out` is one of `input`, `step` further on than the one before.
pub open spec fn every_nth<T>(out: Seq<T>, input: Seq<T>, step: int) -> bool {
    forall|k: int|
        0 <= k < out.len() ==> 0 <= k * step < input.len() && #[trigger] out[k] == input[k * step]
}

/// The first channel of interleaved samples: enough for a microphone, and nothing is summed that
/// could clip.
pub fn first_channel<T: Copy>(input: &[T], channels: usize) -> (r: Vec<T>)
    ensures
        r@ == first_of_each(input@, channels),
{
    let step: usize = if channels >= 1 {
        channels
    } else {
        1
    };
    let mut out: Vec<T> = Vec::new();
    let mut at: usize = 0;
    let ghost mut n: int = 0;
    let total: usize = input.len();
    while at < total
        invariant
            total == input@.len(),
            step == step_of(channels),
            step >= 1,
            n >= 0,
            at <= n * step,
            at == n * step || (at == total && (n - 1) * step < total),
            n > 0 ==> (n - 1) * step < total,
            out@.len() == n,
            every_nth(out@, input@, step as int),
        decreases total - at,
    {
        assert(at == n * step);
        let ghost before = out@;
        out.push(input[at]);
        proof {
            let s = step as int;
            assert(0 <= n * s < total);
            assert forall|k: int| 0 <= k < out@.len() implies 0 <= k * s < input@.len()
                && #[trigger] out@[k] == input@[k * s] by {
                if k < n {
                    assert(out@[k] == before[k]);
                }
            }
            assert((n + 1) * step == n * step + step) by (nonlinear_arith);
            assert(n * step >= 0) by (nonlinear_arith)
                requires
                    n >= 0,
                    step >= 1,
            ;
            n = n + 1;
        }
        if total - at > step {
            at = at + step;
        } else {
            at = total;
        }
    }
    proof {
        let len = total as int;
        let s = step as int;
        assert((len + s - 1) / s == n) by (nonlinear_arith)
            requires
                s >= 1,
                n >= 0,
                len >= 0,
                len <= n * s,
                n > 0 ==> (n - 1) * s < len,
        ;
        assert(out@ =~= first_of_each(input@, channels));
    }
    out
}

/// What a block of the microphone comes to: its first channel, or nothing while the microphone is
/// muted.
pub fn gated<T: Copy>(input: &[T], channels: usize, muted: bool) -> (r: Option<Vec<T>>)
    ensures
        muted ==> r is None,
        !muted ==> (r matches Some(v) && v@ == first_of_each(input@, channels)),
{
    if muted {
        None
    } else {
        Some(first_channel(input, channels))
    }
}

/// Whether the bits of an IEEE 754 single are those of a number above zero.
pub open spec fn is_positive_single(bits: u32) -> bool {
    0 < bits <= 0x7f80_0000
}

/// The stages that the microphone's samples pass.
#[derive(Debug, Clone, Copy, PartialEq, Eq, Structural)]
pub struct Stages {
    /// Subtract what is played.
    pub echo_cancellation: bool,
    /// Remove what is too low to hear.
    pub high_pass_filter: bool,
    /// Suppress noise in the classic way.
    pub classic_noise: bool,
    /// Suppress noise with a neural net.
    pub neural_noise: bool,
    /// Level or boost the gain.
    pub gain: bool,
    /// Compress and limit what is sent.
    pub leveler: bool,
}

/// The stages for a configuration and a boost in decibels, given by the bits of a single: the two
/// ways of suppressing noise are never both on, and the gain stage is there for leveling or for a
/// boost.
pub fn stages(cfg: &MediaConfig, mic_boost_bits: u32) -> (r: Stages)
    ensures
        r == (Stages {
            echo_cancellation: cfg.echo_cancellation,
            high_pass_filter: cfg.high_pass_filter,
            classic_noise: cfg.noise_suppression == NoiseSuppressionMode::Classic,
            neural_noise: cfg.noise_suppression == NoiseSuppressionMode::Ai,
            gain: cfg.auto_gain || is_positive_single(mic_boost_bits),
            leveler: cfg.leveler_enabled,
        }),
        !(r.classic_noise && r.neural_noise),
{
    Stages {
        echo_cancellation: cfg.echo_cancellation,
        high_pass_filter: cfg.high_pass_filter,
        classic_noise: cfg.noise_suppression == NoiseSuppressionMode::Classic,
        neural_noise: cfg.noise_suppression == NoiseSuppressionMode::Ai,
        gain: cfg.auto_gain || (0 < mic_boost_bits && mic_boost_bits <= 0x7f80_0000),
        leveler: cfg.leveler_enabled,
    }
}

/// Ten milliseconds to process.
#[derive(Debug, PartialEq, Eq)]
pub struct ApmFrame {
    /// What the microphone heard.
    pub near: Vec<i16>,
    /// What was played meanwhile, where echo is cancelled.
    pub far: Option<Vec<i16>>,
}

/// An [`ApmFrame`] with its samples as sequences.
pub struct ApmFrameView {
    /// What the microphone heard.
    pub near: Seq<i16>,
    /// What was played meanwhile.
    pub far: Option<Seq<i16>>,
}

impl View for ApmFrame {
    type V = ApmFrameView;

    open spec fn view(&self) -> ApmFrameView {
        ApmFrameView {
            near: self.near@,
            far: match self.far {
                Some(f) => Some(f@),
                None => None,
            },
        }
    }
}

/// Silence.
pub open spec fn silence(n: int) -> Seq<i16> {
    Seq::new(n as nat, |i: int| 0i16)
}

/// The `k`th ten milliseconds of what was played: silence where there is not that much.
pub open spec fn far_frame(far: Seq<i16>, k: int) -> Seq<i16> {
    if far.len() >= (k + 1) * APM_FRAME {
        far.subrange(k * APM_FRAME, (k + 1) * APM_FRAME)
    } else {
        silence(APM_FRAME as int)
    }
}

/// What is left of what was played after `n` frames.
pub open spec fn far_rest(far: Seq<i16>, n: int) -> Seq<i16>
    decreases n,
{
    if n <= 0 {
        far
    } else {
        let before = far_rest(far, n - 1);
        if before.len() >= APM_FRAME {
            before.skip(APM_FRAME as int)
        } else {
            before
        }
    }
}

/// The frames that are ready: each ten milliseconds that the microphone heard, with one frame of
/// what was played, real or silent, where echo is cancelled.
pub open spec fn paired(near: Seq<i16>, far: Seq<i16>, echo: bool) -> Seq<ApmFrameView> {
    Seq::new(
        (near.len() as int / APM_FRAME as int) as nat,
        |k: int|
            ApmFrameView {
                near: near.subrange(k * APM_FRAME, (k + 1) * APM_FRAME),
                far: if echo {
                    Some(far_frame(far, k))
                } else {
                    None
                },
            },
    )
}

/// The newest played samples that may wait.
pub open spec fn capped(far: Seq<i16>) -> Seq<i16> {
    if far.len() > MAX_RENDER_BACKLOG {
        far.skip(far.len() - MAX_RENDER_BACKLOG)
    } else {
        far
    }
}

/// What is between the device and the session: samples that wait for a whole frame on either side.
#[derive(Debug)]
pub struct CapturePipeline {
    device_rate: u32,
    render_rate: u32,
    echo_cancellation: bool,
    apm_in: Vec<i16>,
    render_in: Vec<i16>,
    out: FrameAccumulator,
    backlog_peak: usize,
    backlog_dropped: u64,
}

/// A [`CapturePipeline`] with its samples as sequences.
pub struct PipelineView {
    /// The device's rate.
    pub device_rate: u32,
    /// The rate of what is played.
    pub render_rate: u32,
    /// Whether echo is cancelled.
    pub echo_cancellation: bool,
    /// What the microphone heard and is not processed.
    pub near: Seq<i16>,
    /// What was played and is not paired.
    pub far: Seq<i16>,
    /// The samples of a frame for the session.
    pub frame_size: int,
    /// Processed samples that wait for a whole frame.
    pub held: Seq<i16>,
    /// The most played samples that waited since the last report.
    pub backlog_peak: int,
    /// Played samples that were dropped since the last report.
    pub backlog_dropped: u64,
}

impl View for CapturePipeline {
    type V = PipelineView;

    closed spec fn view(&self) -> PipelineView {
        PipelineView {
            device_rate: self.device_rate,
            render_rate: self.render_rate,
            echo_cancellation: self.echo_cancellation,
            near: self.apm_in@,
            far: self.render_in@,
            frame_size: self.out.size(),
            held: self.out.held(),
            backlog_peak: self.backlog_peak as int,
            backlog_dropped: self.backlog_dropped,
        }
    }
}

impl PipelineView {
    /// What holds of every pipeline between calls: less than a frame waits on the near side, no more
    /// than the limit waits or waited on the far side, and less than a frame for the session is held
    /// back.
    pub open spec fn wf(self) -> bool {
        &&& self.near.len() < APM_FRAME
        &&& self.far.len() <= MAX_RENDER_BACKLOG
        &&& self.frame_size >= 1
        &&& self.held.len() < self.frame_size
        &&& 0 <= self.backlog_peak <= MAX_RENDER_BACKLOG
    }
}

/// A number and another, but not above the largest.
pub open spec fn plus64(a: u64, b: int) -> u64 {
    if a + b <= u64::MAX {
        (a + b) as u64
    } else {
        u64::MAX
    }
}

fn append_samples(to: &mut Vec<i16>, samples: &[i16])
    ensures
        final(to)@ == old(to)@ + samples@,
{
    let mut i: usize = 0;
    while i < samples.len()
        invariant
            i <= samples.len(),
            to@ =~= old(to)@ + samples@.take(i as int),
        decreases samples.len() - i,
    {
        to.push(samples[i]);
        assert(samples@.take(i + 1) =~= samples@.take(i as int).push(samples@[i as int]));
        i = i + 1;
    }
    assert(samples@.take(i as int) =~= samples@);
}

fn take_front(from: &mut Vec<i16>, n: usize) -> (r: Vec<i16>)
    requires
        n <= old(from)@.len(),
    ensures
        r@ == old(from)@.take(n as int),
        final(from)@ == old(from)@.skip(n as int),
{
    let mut rest: Vec<i16> = from.split_off(n);
    std::mem::swap(from, &mut rest);
    assert(rest@ =~= old(from)@.take(n as int));
    assert(from@ =~= old(from)@.skip(n as int));
    rest
}

fn silent_frame() -> (r: Vec<i16>)
    ensures
        r@ == silence(APM_FRAME as int),
{
    let mut r: Vec<i16> = Vec::new();
    let mut i: usize = 0;
    while i < APM_FRAME
        invariant
            i <= APM_FRAME,
            r@ =~= silence(i as int),
        decreases APM_FRAME - i,
    {
        r.push(0);
        i = i + 1;
    }
    r
}

proof fn lemma_far_rest(far: Seq<i16>, n: int)
    requires
        n >= 0,
    ensures
        far_rest(far, n).len() >= APM_FRAME <==> far.len() >= (n + 1) * APM_FRAME,
        far.len() >= n * APM_FRAME ==> far_rest(far, n) == far.skip(n * APM_FRAME),
        far_rest(far, n).len() <= far.len(),
    decreases n,
{
    if n > 0 {
        lemma_far_rest(far, n - 1);
        if far.len() >= n * APM_FRAME {
            assert(far.skip((n - 1) * APM_FRAME).skip(APM_FRAME as int) =~= far.skip(
                n * APM_FRAME,
            ));
        }
    } else {
        assert(far.skip(0) =~= far);
    }
}

impl CapturePipeline {
    /// What holds of every pipeline between calls.
    pub open spec fn wf(&self) -> bool {
        self@.wf()
    }

    /// A pipeline with nothing in it.
    pub fn new(
        device_rate: u32,
        render_rate: u32,
        frame_samples: usize,
        echo_cancellation: bool,
    ) -> (r: Self)
        ensures
            r.wf(),
            r@ == (PipelineView {
                device_rate,
                render_rate,
                echo_cancellation,
                near: Seq::empty(),
                far: Seq::empty(),
                frame_size: crate::capture::larger(frame_samples as int, 1),
                held: Seq::empty(),
                backlog_peak: 0,
                backlog_dropped: 0,
            }),
    {
        CapturePipeline {
            device_rate,
            render_rate,
            echo_cancellation,
            apm_in: Vec::new(),
            render_in: Vec::new(),
            out: FrameAccumulator::new(frame_samples),
            backlog_peak: 0,
            backlog_dropped: 0,
        }
    }

    /// Take in what the device heard, and give out the frames to process, in order.
    pub fn process(&mut self, mono: &[i16]) -> (r: Vec<ApmFrame>)
        requires
            old(self).wf(),
            crate::media::can_resample(mono@.len() as int, old(self)@.device_rate, APM_RATE),
        ensures
            final(self).wf(),
            ({
                let v = old(self)@;
                let near = v.near + crate::media::resampled(mono@, v.device_rate, APM_RATE);
                let n = near.len() as int / APM_FRAME as int;
                &&& crate::text::views(r@) == paired(near, v.far, v.echo_cancellation)
                &&& final(self)@ == (PipelineView {
                    near: near.skip(n * APM_FRAME),
                    far: if v.echo_cancellation {
                        far_rest(v.far, n)
                    } else {
                        v.far
                    },
                    ..v
                })
            }),
    {
        let ghost v = self@;
        let heard: Vec<i16> = crate::media::resample_linear(mono, self.device_rate, APM_RATE);
        append_samples(&mut self.apm_in, heard.as_slice());
        let ghost near = self@.near;
        let ghost n = near.len() as int / APM_FRAME as int;
        let echo: bool = self.echo_cancellation;
        let mut frames: Vec<ApmFrame> = Vec::new();
        let ghost mut k: int = 0;
        proof {
            assert(near.skip(0) =~= near);
            assert(crate::text::views(frames@) =~= paired(near, v.far, echo).take(0));
        }
        while self.apm_in.len() >= APM_FRAME
            invariant
                v.far.len() <= MAX_RENDER_BACKLOG,
                0 <= k <= n,
                n == near.len() as int / APM_FRAME as int,
                echo == v.echo_cancellation,
                self@ == (PipelineView {
                    near: near.skip(k * APM_FRAME),
                    far: if echo {
                        far_rest(v.far, k)
                    } else {
                        v.far
                    },
                    ..v
                }),
                crate::text::views(frames@) == paired(near, v.far, echo).take(k),
            decreases self.apm_in@.len(),
        {
            let ghost done = crate::text::views(frames@);
            proof {
                lemma_far_rest(v.far, k);
                assert(k < n);
            }
            let far: Option<Vec<i16>> = if echo {
                if self.render_in.len() >= APM_FRAME {
                    Some(take_front(&mut self.render_in, APM_FRAME))
                } else {
                    Some(silent_frame())
                }
            } else {
                None
            };
            let near_frame: Vec<i16> = take_front(&mut self.apm_in, APM_FRAME);
            let frame: ApmFrame = ApmFrame { near: near_frame, far };
            proof {
                let p = paired(near, v.far, echo)[k];
                assert(frame@.near =~= p.near);
                if echo {
                    assert(frame@.far->0 =~= far_frame(v.far, k));
                }
                assert(frame@ == p);
                assert(near.skip(k * APM_FRAME).skip(APM_FRAME as int) =~= near.skip(
                    (k + 1) * APM_FRAME,
                ));
            }
            frames.push(frame);
            proof {
                assert(crate::text::views(frames@) =~= done.push(frame@));
                assert(paired(near, v.far, echo).take(k + 1) =~= paired(near, v.far, echo).take(
                    k,
                ).push(frame@));
                k = k + 1;
            }
        }
        proof {
            assert(k == n);
            lemma_far_rest(v.far, n);
            assert(paired(near, v.far, echo).take(n) =~= paired(near, v.far, echo));
        }
        frames
    }

    /// Take in processed samples, and give out the frames that they complete for the session.
    pub fn emit(&mut self, processed: &[i16]) -> (r: Vec<Vec<i16>>)
        requires
            old(self).wf(),
            old(self)@.held.len() + processed@.len() <= usize::MAX,
        ensures
            final(self).wf(),
            crate::text::views(r@) == crate::media::whole_frames(
                old(self)@.held + processed@,
                old(self)@.frame_size,
            ),
            final(self)@ == (PipelineView {
                held: crate::media::frame_rest(
                    old(self)@.held + processed@,
                    old(self)@.frame_size,
                ),
                ..old(self)@
            }),
    {
        self.out.push(processed)
    }

    /// Take in what was played, at its own rate. Without echo cancellation it is not needed. More
    /// than the limit does not wait: the oldest is dropped.
    pub fn buffer_render(&mut self, render: &[i16])
        requires
            old(self).wf(),
            crate::media::can_resample(render@.len() as int, old(self)@.render_rate, APM_RATE),
        ensures
            final(self).wf(),
            ({
                let v = old(self)@;
                let all = v.far + crate::media::resampled(render@, v.render_rate, APM_RATE);
                let kept = capped(all);
                final(self)@ == if !v.echo_cancellation {
                    v
                } else {
                    PipelineView {
                        far: kept,
                        backlog_peak: crate::capture::larger(v.backlog_peak, kept.len() as int),
                        backlog_dropped: plus64(v.backlog_dropped, all.len() - kept.len()),
                        ..v
                    }
                }
            }),
    {
        if !self.echo_cancellation {
            return;
        }
        let played: Vec<i16> = crate::media::resample_linear(render, self.render_rate, APM_RATE);
        append_samples(&mut self.render_in, played.as_slice());
        let total: usize = self.render_in.len();
        if total > MAX_RENDER_BACKLOG {
            let excess: usize = total - MAX_RENDER_BACKLOG;
            take_front(&mut self.render_in, excess);
            self.backlog_dropped = if self.backlog_dropped <= u64::MAX - excess as u64 {
                self.backlog_dropped + excess as u64
            } else {
                u64::MAX
            };
        }
        let waiting: usize = self.render_in.len();
        if waiting > self.backlog_peak {
            self.backlog_peak = waiting;
        }
    }

    /// The most played audio that waited since the last report, in milliseconds, and how many of its
    /// samples were dropped. Both begin anew.
    pub fn report_backlog(&mut self) -> (r: (u64, u64))
        requires
            old(self).wf(),
        ensures
            final(self).wf(),
            r.0 == old(self)@.backlog_peak * 1000 / 16_000,
            r.1 == old(self)@.backlog_dropped,
            final(self)@ == (PipelineView { backlog_peak: 0, backlog_dropped: 0, ..old(self)@ }),
    {
        let peak: u64 = self.backlog_peak as u64;
        let dropped: u64 = self.backlog_dropped;
        self.backlog_peak = 0;
        self.backlog_dropped = 0;
        (peak * 1000 / 16_000, dropped)
    }
}

/// Every frame that is processed has ten milliseconds of what was heard, and, where echo is
/// cancelled, just as much of what was played: the two never drift apart.
pub proof fn law_frames_are_paired(near: Seq<i16>, far: Seq<i16>, echo: bool, k: int)
    requires
        0 <= k < paired(near, far, echo).len(),
    ensures
        paired(near, far, echo)[k].near.len() == APM_FRAME,
        echo ==> (paired(near, far, echo)[k].far matches Some(f) && f.len() == APM_FRAME),
        !echo ==> paired(near, far, echo)[k].far is None,
{
}

/// Nothing that the microphone heard is lost or repeated: the frames and what still waits are what
/// was heard, in order.
pub proof fn law_capture_loses_nothing(near: Seq<i16>, far: Seq<i16>, echo: bool, i: int)
    requires
        0 <= i < near.len(),
    ensures
        ({
            let n = near.len() as int / APM_FRAME as int;
            if i < n * APM_FRAME {
                near[i] == paired(near, far, echo)[i / APM_FRAME as int].near[i
                    % APM_FRAME as int]
            } else {
                near[i] == near.skip(n * APM_FRAME)[i - n * APM_FRAME]
            }
        }),
{
    let n = near.len() as int / APM_FRAME as int;
    if i < n * APM_FRAME {
        let k = i / APM_FRAME as int;
        assert(0 <= k < n);
        assert(paired(near, far, echo)[k].near == near.subrange(
            k * APM_FRAME,
            (k + 1) * APM_FRAME,
        ));
    }
}

/// A device is found where the first of its name stands; where none has it, nowhere.
pub proof fn law_device_is_the_first_of_its_name(names: Seq<Seq<char>>, name: Seq<char>)
    ensures
        0 <= device_at(names, name) <= names.len(),
        device_at(names, name) < names.len() ==> names[device_at(names, name)] == name,
        forall|i: int| 0 <= i < device_at(names, name) ==> #[trigger] names[i] != name,
    decreases names.len(),
{
    if names.len() > 0 && names[0] != name {
        let rest = names.drop_first();
        law_device_is_the_first_of_its_name(rest, name);
        assert forall|i: int| 0 <= i < device_at(names, name) implies #[trigger] names[i] != name by {
            if i > 0 {
                assert(rest[i - 1] == names[i]);
            }
        }
    }
}

/// The first channel has the first sample of every frame, in order; a single channel is all there is,
/// and a frame more adds its first sample.
pub proof fn law_first_channel<T>(input: Seq<T>, frame: Seq<T>, channels: usize)
    requires
        channels >= 1,
        frame.len() == channels,
        input.len() as int % channels as int == 0,
    ensures
        first_of_each(Seq::<T>::empty(), channels).len() == 0,
        first_of_each(input + frame, channels) == first_of_each(input, channels).push(frame[0]),
        first_of_each(frame, 1) == frame,
        first_of_each(frame, 0) == frame,
{
    let c = channels as int;
    let n = input.len() as int / c;
    vstd::arithmetic::div_mod::lemma_fundamental_div_mod(input.len() as int, c);
    assert(c * n == n * c) by (nonlinear_arith);
    vstd::arithmetic::div_mod::lemma_fundamental_div_mod_converse(n * c + (c - 1), c, n, c - 1);
    assert((n + 1) * c == n * c + c) by (nonlinear_arith);
    vstd::arithmetic::div_mod::lemma_fundamental_div_mod_converse(
        (n + 1) * c + (c - 1),
        c,
        n + 1,
        c - 1,
    );
    vstd::arithmetic::div_mod::lemma_fundamental_div_mod_converse(c - 1, c, 0, c - 1);
    assert(channel_frames(input.len() as int, c) == n);
    assert(channel_frames((input + frame).len() as int, c) == n + 1);
    let out = first_of_each(input + frame, channels);
    let before = first_of_each(input, channels);
    assert forall|i: int| 0 <= i < out.len() implies out[i] == #[trigger] before.push(frame[0])[i] by {
        assert(i * c < n * c || i == n) by (nonlinear_arith)
            requires
                0 <= i <= n,
                c >= 1,
        ;
        assert(i * c >= 0) by (nonlinear_arith)
            requires
                i >= 0,
                c >= 1,
        ;
    }
    assert(out =~= before.push(frame[0]));
    lemma_single_channel(frame, 1);
    lemma_single_channel(frame, 0);
}

proof fn lemma_single_channel<T>(input: Seq<T>, channels: usize)
    requires
        channels <= 1,
    ensures
        first_of_each(input, channels) == input,
{
    let step = step_of(channels);
    assert(step == 1);
    let out = first_of_each(input, channels);
    assert(out.len() == input.len());
    assert forall|i: int| 0 <= i < out.len() implies #[trigger] out[i] == input[i] by {
        assert(i * step == i) by (nonlinear_arith)
            requires
                step == 1,
        ;
    }
    assert(out =~= input);
}

/// What was played is paired in its order, ten milliseconds at a time: while there is that much, the
/// next of it is taken and what is left is the rest; after that there is silence, and what does not fill
/// a frame waits.
pub proof fn law_played_audio_is_paired_in_order(far: Seq<i16>, k: int)
    requires
        0 <= k,
    ensures
        (k + 1) * 160 <= far.len() ==> far_frame(far, k) == far.skip(k * 160).take(160),
        (k + 1) * 160 > far.len() ==> far_frame(far, k).len() == 160 && forall|i: int|
            0 <= i < 160 ==> #[trigger] far_frame(far, k)[i] == 0,
        k * 160 <= far.len() ==> far_rest(far, k) == far.skip(k * 160),
        k * 160 > far.len() ==> far_rest(far, k) == far.skip(far.len() as int / 160 * 160),
    decreases k,
{
    if (k + 1) * 160 <= far.len() {
        assert(far_frame(far, k) =~= far.skip(k * 160).take(160));
    }
    if k == 0 {
        assert(far.skip(0) =~= far);
    } else {
        law_played_audio_is_paired_in_order(far, k - 1);
        if k * 160 <= far.len() {
            assert(far.skip((k - 1) * 160).skip(160) =~= far.skip(k * 160));
        } else if (k - 1) * 160 <= far.len() {
            assert(far.len() as int / 160 == k - 1);
        }
    }
}

/// Each frame that is processed holds the next ten milliseconds of what was heard, and with it what was
/// played at the same place.
pub proof fn law_frame_holds_the_next_samples(near: Seq<i16>, far: Seq<i16>, k: int)
    requires
        0 <= k < near.len() as int / 160,
    ensures
        paired(near, far, true).len() == near.len() as int / 160,
        paired(near, far, false).len() == near.len() as int / 160,
        paired(near, far, true)[k].near == near.skip(k * 160).take(160),
        paired(near, far, false)[k].near == near.skip(k * 160).take(160),
        paired(near, far, true)[k].far == Some(far_frame(far, k)),
        paired(near, far, false)[k].far is None,
{
    assert(near.subrange(k * 160, (k + 1) * 160) =~= near.skip(k * 160).take(160));
}

/// Of what was played the newest two hundred milliseconds may wait; the oldest are dropped.
pub proof fn law_newest_samples_wait(far: Seq<i16>, i: int)
    ensures
        far.len() <= 3_200 ==> capped(far) == far,
        far.len() > 3_200 ==> capped(far).len() == 3_200,
        0 <= i < capped(far).len() ==> capped(far)[capped(far).len() - 1 - i] == far[far.len() - 1
            - i],
{
}

/// A count of dropped samples is exact until it is full.
pub proof fn law_dropped_samples_are_counted(a: u64, b: nat)
    ensures
        a + b <= u64::MAX ==> plus64(a, b as int) == a + b,
        a + b > u64::MAX ==> plus64(a, b as int) == u64::MAX,
{
}

/// Which bits of a single are a number above zero: those of one, but neither zero, nor what has its sign
/// set, nor what is no number.
pub proof fn law_positive_singles(bits: u32)
    ensures
        is_positive_single(0x3f80_0000),
        is_positive_single(1),
        is_positive_single(0x7f80_0000),
        !is_positive_single(0),
        bits >= 0x8000_0000 ==> !is_positive_single(bits),
        0x7f80_0000 < bits ==> !is_positive_single(bits),
{
}

} // verus!
