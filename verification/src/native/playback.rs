//! The speaker: the provider's audio at the device's rate, and one channel on all of them.
use vstd::prelude::*;

use crate::media::{AudioFormat, JitterBuffer};

verus! {

/// What the playback is told.
#[derive(Debug, PartialEq, Eq)]
pub enum PlaybackCmd {
    /// 24 kHz mono samples to play.
    Pcm(Vec<i16>),
    /// Drop what is not played yet.
    Flush,
}

/// What a frame of the session's audio tells the playback: an empty one is the sign of an
/// interruption.
pub fn playback_command(pcm: Vec<i16>) -> (r: PlaybackCmd)
    ensures
        pcm@.len() == 0 ==> r == PlaybackCmd::Flush,
        pcm@.len() > 0 ==> r == PlaybackCmd::Pcm(pcm),
{
    if pcm.len() == 0 {
        PlaybackCmd::Flush
    } else {
        PlaybackCmd::Pcm(pcm)
    }
}

/// What waits to be played on a device.
#[derive(Debug)]
pub struct Playback {
    buffer: JitterBuffer,
    device_rate: u32,
}

/// A [`Playback`] with its samples as a sequence.
pub struct PlaybackView {
    /// What waits, at the device's rate.
    pub queue: Seq<i16>,
    /// The device's rate.
    pub device_rate: u32,
}

impl View for Playback {
    type V = PlaybackView;

    closed spec fn view(&self) -> PlaybackView {
        PlaybackView { queue: self.buffer@, device_rate: self.device_rate }
    }
}

impl Playback {
    /// A device with nothing to play.
    pub fn new(device_rate: u32) -> (r: Self)
        ensures
            r@ == (PlaybackView { queue: Seq::empty(), device_rate }),
    {
        Playback { buffer: JitterBuffer::new(), device_rate }
    }

    /// Queue samples of the provider, resampled for the device.
    pub fn enqueue(&mut self, pcm: &[i16])
        requires
            crate::media::can_resample(pcm@.len() as int, 24_000, old(self)@.device_rate),
            old(self)@.queue.len() + crate::media::resampled(
                pcm@,
                24_000,
                old(self)@.device_rate,
            ).len() <= usize::MAX,
        ensures
            final(self)@ == (PlaybackView {
                queue: old(self)@.queue + crate::media::resampled(
                    pcm@,
                    24_000,
                    old(self)@.device_rate,
                ),
                ..old(self)@
            }),
    {
        let rate: u32 = AudioFormat::output().sample_rate;
        let at_device: Vec<i16> = crate::media::resample_linear(pcm, rate, self.device_rate);
        self.buffer.enqueue(at_device.as_slice());
    }

    /// Drop what is not played yet.
    pub fn flush(&mut self)
        ensures
            final(self)@ == (PlaybackView { queue: Seq::empty(), ..old(self)@ }),
    {
        self.buffer.flush();
    }

    /// The next samples to play, silence where there is nothing left.
    pub fn pull(&mut self, frames: usize) -> (r: Vec<i16>)
        ensures
            r@ == crate::media::pulled(old(self)@.queue, frames as int),
            final(self)@ == (PlaybackView {
                queue: crate::media::left_over(old(self)@.queue, frames as int),
                ..old(self)@
            }),
    {
        self.buffer.pull(frames)
    }
}

/// How many samples of one channel fill a block of the device.
pub fn block_frames(len: usize, channels: usize) -> (r: usize)
    ensures
        r == if channels >= 1 {
            len / channels
        } else {
            len
        },
{
    if channels >= 1 {
        len / channels
    } else {
        len
    }
}

/// One channel on all of them: each sample as often as there are channels.
pub open spec fn on_all_channels<T>(mono: Seq<T>, channels: int) -> Seq<T> {
    Seq::new((mono.len() * channels) as nat, |i: int| mono[i / channels])
}

/// One channel on all of them.
pub fn spread<T: Copy>(mono: &[T], channels: usize) -> (r: Vec<T>)
    requires
        mono@.len() * channels <= usize::MAX,
    ensures
        r@ == on_all_channels(mono@, channels as int),
{
    let mut out: Vec<T> = Vec::new();
    let mut i: usize = 0;
    let ghost n = channels as int;
    while i < mono.len()
        invariant
            i <= mono@.len(),
            n == channels,
            out@.len() == i * n,
            forall|k: int| 0 <= k < out@.len() ==> #[trigger] out@[k] == mono@[k / n],
        decreases mono@.len() - i,
    {
        let mut c: usize = 0;
        assert(i * n + 0 == i * n);
        while c < channels
            invariant
                i < mono@.len(),
                n == channels,
                c <= channels,
                out@.len() == i * n + c,
                forall|k: int| 0 <= k < out@.len() ==> #[trigger] out@[k] == mono@[k / n],
            decreases channels - c,
        {
            proof {
                let k = i * n + c;
                assert(k / n == i) by (nonlinear_arith)
                    requires
                        k == i * n + c,
                        0 <= c < n,
                        0 <= i,
                ;
            }
            out.push(mono[i]);
            c = c + 1;
        }
        assert((i + 1) * n == i * n + n) by (nonlinear_arith);
        i = i + 1;
    }
    assert(out@ =~= on_all_channels(mono@, channels as int));
    out
}

/// Every sample stands on all channels before the next one comes.
pub proof fn law_sample_on_every_channel<T>(mono: Seq<T>, channels: int, i: int, c: int)
    requires
        0 <= i < mono.len(),
        0 <= c < channels,
    ensures
        on_all_channels(mono, channels).len() == mono.len() * channels,
        on_all_channels(mono, channels)[i * channels + c] == mono[i],
{
    assert(0 <= i * channels + c < mono.len() * channels) by (nonlinear_arith)
        requires
            0 <= i < mono.len(),
            0 <= c < channels,
    ;
    assert((i * channels + c) / channels == i) by (nonlinear_arith)
        requires
            0 <= i,
            0 <= c < channels,
    ;
}

} // verus!
