//! Audio and video values, PCM conversion, framing, resampling and the playback buffer.
use crate::double::{Double, DoubleView};
use std::collections::VecDeque;
use vstd::prelude::*;

pub use crate::capture::{CaptureQuality, CaptureSource, SourceInfo, SourceKind};

verus! {

/// A linear-PCM audio format. Joi uses signed 16-bit mono.
#[derive(Debug, Clone, Copy, PartialEq, Eq, Structural)]
pub struct AudioFormat {
    /// Samples per second (Hz).
    pub sample_rate: u32,
    /// Channel count.
    pub channels: u16,
}

impl AudioFormat {
    /// Mic input format sent to the provider: 16 kHz mono.
    pub open spec fn spec_input() -> AudioFormat {
        AudioFormat { sample_rate: 16_000, channels: 1 }
    }

    /// Audio output format received from the provider: 24 kHz mono.
    pub open spec fn spec_output() -> AudioFormat {
        AudioFormat { sample_rate: 24_000, channels: 1 }
    }

    /// Mic input format sent to the provider: 16 kHz mono.
    pub fn input() -> (r: AudioFormat)
        ensures
            r == AudioFormat::spec_input(),
    {
        AudioFormat { sample_rate: 16_000, channels: 1 }
    }

    /// Audio output format received from the provider: 24 kHz mono.
    pub fn output() -> (r: AudioFormat)
        ensures
            r == AudioFormat::spec_output(),
    {
        AudioFormat { sample_rate: 24_000, channels: 1 }
    }

    /// Number of whole samples in a frame of `frame_ms` milliseconds at this rate.
    #[must_use]
    pub fn samples_per_frame(&self, frame_ms: u32) -> (r: usize)
        requires
            (self.sample_rate * frame_ms) / 1000 <= usize::MAX,
        ensures
            r == (self.sample_rate * frame_ms) / 1000,
    {
        assert(self.sample_rate * frame_ms <= u32::MAX * u32::MAX) by (nonlinear_arith)
            requires
                0 <= self.sample_rate <= u32::MAX,
                0 <= frame_ms <= u32::MAX,
        ;
        let product: u64 = (self.sample_rate as u64) * (frame_ms as u64);
        (product / 1000) as usize
    }
}

/// How a [`VideoFrame`]'s bytes are encoded.
#[derive(Debug, Clone, Copy, PartialEq, Eq, Structural)]
pub enum FrameEncoding {
    /// JPEG.
    Jpeg,
    /// WebP.
    Webp,
}

/// One encoded screen frame.
#[derive(Debug, PartialEq, Eq)]
pub struct VideoFrame {
    /// Frame width in pixels.
    pub width: u32,
    /// Frame height in pixels.
    pub height: u32,
    /// Encoding of `data`.
    pub encoding: FrameEncoding,
    /// The encoded image bytes.
    pub data: Vec<u8>,
}

/// How many frames of `size` samples cover `len` samples, the last one possibly short.
pub open spec fn frame_count(len: int, size: int) -> int {
    (len + size - 1) / size
}

/// Where frame `k` ends.
pub open spec fn frame_end(len: int, size: int, k: int) -> int {
    if (k + 1) * size <= len {
        (k + 1) * size
    } else {
        len
    }
}

/// Split a PCM buffer into frames of `samples_per_frame` samples each, in order.
///
/// The last frame is shorter where the length is no multiple. A frame size of zero counts as one.
pub fn frames(pcm: &[i16], samples_per_frame: usize) -> (r: Vec<&[i16]>)
    ensures
        ({
            let size = crate::capture::larger(samples_per_frame as int, 1);
            &&& r@.len() == frame_count(pcm@.len() as int, size)
            &&& forall|k: int|
                0 <= k < r@.len() ==> (#[trigger] r@[k])@ == pcm@.subrange(
                    k * size,
                    frame_end(pcm@.len() as int, size, k),
                )
        }),
{
    let size: usize = if samples_per_frame >= 1 {
        samples_per_frame
    } else {
        1
    };
    let mut out: Vec<&[i16]> = Vec::new();
    let mut start: usize = 0;
    assert(0 * size == 0) by (nonlinear_arith);
    while start < pcm.len()
        invariant
            size >= 1,
            start <= pcm.len(),
            start < pcm.len() ==> start == out@.len() * size,
            out@.len() * size <= pcm@.len() + size - 1,
            start == pcm.len() ==> pcm@.len() <= out@.len() * size,
            forall|k: int|
                0 <= k < out@.len() ==> (#[trigger] out@[k])@ == pcm@.subrange(
                    k * size,
                    frame_end(pcm@.len() as int, size as int, k),
                ),
        decreases pcm.len() - start,
    {
        let end: usize = if pcm.len() - start >= size {
            start + size
        } else {
            pcm.len()
        };
        let ghost n = out@.len() as int;
        proof {
            assert((n + 1) * size == n * size + size) by (nonlinear_arith);
        }
        out.push(vstd::slice::slice_subrange(pcm, start, end));
        start = end;
    }
    proof {
        let len = pcm@.len() as int;
        let n = out@.len() as int;
        let sz = size as int;
        assert(n == (len + sz - 1) / sz) by (nonlinear_arith)
            requires
                sz >= 1,
                n >= 0,
                n * sz <= len + sz - 1,
                len <= n * sz,
        ;
    }
    out
}

/// The two's-complement pattern of a sample as a number below 65536.
pub open spec fn pattern(s: i16) -> int {
    if s < 0 {
        s + 65536
    } else {
        s as int
    }
}

/// Low byte first.
pub open spec fn le_bytes(pcm: Seq<i16>) -> Seq<u8> {
    Seq::new(
        pcm.len() * 2,
        |i: int|
            if i % 2 == 0 {
                (pattern(pcm[i / 2]) % 256) as u8
            } else {
                (pattern(pcm[i / 2]) / 256) as u8
            },
    )
}

/// The sample whose low byte is `lo` and whose high byte is `hi`.
pub open spec fn sample_of(lo: u8, hi: u8) -> i16 {
    let u = lo + hi * 256;
    if u >= 32768 {
        (u - 65536) as i16
    } else {
        u as i16
    }
}

/// The samples that whole pairs of bytes make, low byte first.
pub open spec fn le_samples(bytes: Seq<u8>) -> Seq<i16> {
    Seq::new(bytes.len() / 2, |i: int| sample_of(bytes[2 * i], bytes[2 * i + 1]))
}

/// Encode PCM16 samples as little-endian bytes.
#[must_use]
pub fn pcm16_to_le_bytes(pcm: &[i16]) -> (r: Vec<u8>)
    ensures
        r@ == le_bytes(pcm@),
{
    let mut out: Vec<u8> = Vec::new();
    let mut i: usize = 0;
    while i < pcm.len()
        invariant
            i <= pcm.len(),
            out@ =~= le_bytes(pcm@).take(2 * i),
        decreases pcm.len() - i,
    {
        let s: i16 = pcm[i];
        let u: i32 = if s < 0 {
            s as i32 + 65536
        } else {
            s as i32
        };
        out.push((u % 256) as u8);
        out.push((u / 256) as u8);
        i = i + 1;
        proof {
            let all = le_bytes(pcm@);
            assert(all[2 * (i - 1)] == (pattern(s) % 256) as u8);
            assert(all[2 * (i - 1) + 1] == (pattern(s) / 256) as u8);
            assert(all.take(2 * i) =~= all.take(2 * (i - 1)).push(all[2 * (i - 1)]).push(
                all[2 * (i - 1) + 1],
            ));
        }
    }
    out
}

/// Decode little-endian bytes into PCM16 samples. A trailing odd byte is ignored.
#[must_use]
pub fn le_bytes_to_pcm16(bytes: &[u8]) -> (r: Vec<i16>)
    ensures
        r@ == le_samples(bytes@),
{
    let mut out: Vec<i16> = Vec::new();
    let n: usize = bytes.len() / 2;
    let mut i: usize = 0;
    while i < n
        invariant
            i <= n,
            n == bytes.len() / 2,
            out@ =~= le_samples(bytes@).take(i as int),
        decreases n - i,
    {
        let u: i32 = bytes[2 * i] as i32 + bytes[2 * i + 1] as i32 * 256;
        let s: i16 = if u >= 32768 {
            (u - 65536) as i16
        } else {
            u as i16
        };
        out.push(s);
        i = i + 1;
        proof {
            let all = le_samples(bytes@);
            assert(all.take(i as int) =~= all.take(i - 1).push(all[i - 1]));
        }
    }
    out
}

/// Decoding what was encoded gives the samples back.
pub proof fn law_pcm_round_trip(pcm: Seq<i16>)
    ensures
        le_bytes(pcm).len() == 2 * pcm.len(),
        le_samples(le_bytes(pcm)) == pcm,
{
    let b = le_bytes(pcm);
    assert forall|i: int| 0 <= i < pcm.len() implies le_samples(b)[i] == pcm[i] by {
        let u = pattern(pcm[i]);
        assert(b[2 * i] == (u % 256) as u8);
        assert(b[2 * i + 1] == (u / 256) as u8);
        assert(0 <= u < 65536);
        assert(u % 256 + (u / 256) * 256 == u);
    }
    assert(le_samples(b) =~= pcm);
}

/// A sample is two bytes in two's complement, the low one first, whichever way it is read.
pub proof fn law_samples_are_low_byte_first(bytes: Seq<u8>, i: int)
    requires
        0 <= i < bytes.len() as int / 2,
    ensures
        le_samples(bytes).len() == bytes.len() as int / 2,
        le_samples(bytes)[i] as int == {
            let n = bytes[2 * i] + 256 * bytes[2 * i + 1];
            if n < 32768 {
                n
            } else {
                n - 65536
            }
        },
{
    assert(0 <= bytes[2 * i] < 256 && 0 <= bytes[2 * i + 1] < 256);
}

/// A torn last byte adds no sample.
pub proof fn law_torn_byte_ignored(bytes: Seq<u8>, torn: u8)
    requires
        bytes.len() % 2 == 0,
    ensures
        le_samples(bytes.push(torn)) == le_samples(bytes),
{
    assert(le_samples(bytes.push(torn)) =~= le_samples(bytes));
}

/// `num / den` to the nearest integer, halves away from zero.
pub open spec fn rounded(num: int, den: int) -> int {
    if num >= 0 {
        (2 * num + den) / (2 * den)
    } else {
        -((-2 * num + den) / (2 * den))
    }
}

/// A value held to the range of a sample.
pub open spec fn sample_range(v: int) -> int {
    if v < -32768 {
        -32768
    } else if v > 32767 {
        32767
    } else {
        v
    }
}

/// The sample at output position `i`, computed in doubles: the straight line between the two input
/// samples around it, rounded to an integer. Past the last input sample the line is flat. `ratio` is
/// how far the input advances with each output sample.
pub open spec fn interpolated(input: Seq<i16>, ratio: DoubleView, i: int) -> int {
    let pos = crate::double::nearest(i * ratio.num);
    let i0 = pos / ratio.den;
    let i1 = if i0 + 1 < input.len() {
        i0 + 1
    } else {
        input.len() - 1
    };
    let frac = pos % ratio.den;
    let rest = crate::double::nearest(ratio.den - frac);
    let sum = crate::double::nearest(
        crate::double::nearest(input[i0] * rest) + crate::double::nearest(input[i1] * frac),
    );
    sample_range(rounded(sum, ratio.den))
}

/// Whether the rates or the input leave nothing to resample.
pub open spec fn resample_is_identity(len: int, in_rate: u32, out_rate: u32) -> bool {
    len == 0 || in_rate == 0 || out_rate == 0 || in_rate == out_rate
}

/// How many samples resampling gives: the input's length over the ratio of the rates, in doubles,
/// rounded down.
pub open spec fn resampled_len(len: int, in_rate: u32, out_rate: u32) -> int {
    let ratio = crate::double::quotient(in_rate as int, out_rate as int);
    let n = crate::double::quotient(len * ratio.den, ratio.num);
    n.num / n.den
}

/// What resampling gives.
pub open spec fn resampled(input: Seq<i16>, in_rate: u32, out_rate: u32) -> Seq<i16> {
    if resample_is_identity(input.len() as int, in_rate, out_rate) {
        input
    } else {
        let ratio = crate::double::quotient(in_rate as int, out_rate as int);
        Seq::new(
            resampled_len(input.len() as int, in_rate, out_rate) as nat,
            |i: int| interpolated(input, ratio, i) as i16,
        )
    }
}

/// More samples than any machine holds, and few enough for a double to count them.
pub const MAX_SAMPLES: u64 = 0x4_0000_0000_0000;

/// Whether the input and what resampling gives can be held.
pub open spec fn can_resample(len: int, in_rate: u32, out_rate: u32) -> bool {
    resample_is_identity(len, in_rate, out_rate) || {
        &&& len <= MAX_SAMPLES
        &&& len * out_rate <= MAX_SAMPLES * in_rate
        &&& resampled_len(len, in_rate, out_rate) <= usize::MAX
    }
}

/// Every position lies before the end of the input.
proof fn lemma_positions(len: int, in_rate: u32, out_rate: u32, i: int)
    requires
        !resample_is_identity(len, in_rate, out_rate),
        can_resample(len, in_rate, out_rate),
        0 < len,
        0 <= i < resampled_len(len, in_rate, out_rate),
    ensures
        ({
            let ratio = crate::double::quotient(in_rate as int, out_rate as int);
            let pos = crate::double::nearest(i * ratio.num);
            &&& 0 <= i * ratio.num < 0x80_0000_0000_0000_0000_0000_0000
            &&& 0 <= pos < len * ratio.den
            &&& 0 <= pos / ratio.den < len
        }),
{
    let ratio = crate::double::quotient(in_rate as int, out_rate as int);
    lemma_ratio(len, in_rate, out_rate);
    let r = ratio.num;
    let b = ratio.den;
    let n = crate::double::quotient(len * b, r);
    crate::double::lemma_quotient(len * b, r);
    let m = n.num;
    let k = n.den;
    let total = m / k;
    assert(total * k <= m) by (nonlinear_arith)
        requires
            total == m / k,
            k >= 1,
    ;
    assert(2 * (total * r) <= 2 * (len * b) + r) by (nonlinear_arith)
        requires
            total * k <= m,
            2 * (r * m) <= 2 * ((len * b) * k) + r,
            k >= 1,
            r >= 1,
    ;
    assert(total * r <= MAX_SAMPLES * r + r + MAX_SAMPLES);
    assert(total <= MAX_SAMPLES + 2) by (nonlinear_arith)
        requires
            total * r <= MAX_SAMPLES * r + r + MAX_SAMPLES,
            r > MAX_SAMPLES,
    ;
    assert(0 <= i * r <= total * r - r) by (nonlinear_arith)
        requires
            0 <= i <= total - 1,
            r >= 1,
    ;
    assert(i * r <= (MAX_SAMPLES + 2) * r) by (nonlinear_arith)
        requires
            i <= MAX_SAMPLES + 2,
            r >= 1,
    ;
    let x = i * r;
    crate::double::lemma_nearest(x);
    crate::double::lemma_spacing(x);
    assert((MAX_SAMPLES + 2) * r <= 0x4_0000_0000_0002 * 0x20_0000_0000_0000);
    let pos = crate::double::nearest(x);
    let u = crate::double::spacing(x);
    assert(2 * u <= r);
    assert(4 * pos <= 4 * x + r);
    assert(4 * pos < 4 * (len * b));
    assert(0 <= pos / b < len) by (nonlinear_arith)
        requires
            0 <= pos < len * b,
            b >= 1,
    ;
}

/// The ratio of the rates and the numbers computed from it stay small.
proof fn lemma_ratio(len: int, in_rate: u32, out_rate: u32)
    requires
        !resample_is_identity(len, in_rate, out_rate),
        0 < len <= MAX_SAMPLES,
        len * out_rate <= MAX_SAMPLES * in_rate,
    ensures
        ({
            let ratio = crate::double::quotient(in_rate as int, out_rate as int);
            &&& 1 <= ratio.den < 0x20_0000_0000_0000_0000_0000
            &&& crate::double::FULL <= ratio.num <= crate::double::OVER
            &&& 2 * (len * ratio.den) <= MAX_SAMPLES * (2 * ratio.num + 1)
            &&& 0 < len * ratio.den < crate::double::FULL * ratio.num
        }),
{
    let n = in_rate as int;
    let d = out_rate as int;
    crate::double::lemma_quotient(n, d);
    let ratio = crate::double::quotient(n, d);
    let r = ratio.num;
    let b = ratio.den;
    assert(b <= n * b) by (nonlinear_arith)
        requires
            n >= 1,
            b >= 1,
    ;
    assert(2 * (len * b) <= MAX_SAMPLES * (2 * r + 1)) by (nonlinear_arith)
        requires
            2 * (n * b) - d <= 2 * (d * r),
            len * d <= MAX_SAMPLES * n,
            len > 0,
            n >= 1,
            d >= 1,
            b >= 1,
            r >= 1,
    {
        assert(len * (2 * (n * b)) <= len * (2 * (d * r) + d)) by (nonlinear_arith)
            requires
                2 * (n * b) - d <= 2 * (d * r),
                len > 0,
        ;
        assert(len * (2 * (d * r) + d) == (len * d) * (2 * r + 1)) by (nonlinear_arith);
        assert((len * d) * (2 * r + 1) <= (MAX_SAMPLES * n) * (2 * r + 1)) by (nonlinear_arith)
            requires
                len * d <= MAX_SAMPLES * n,
                r >= 1,
        ;
        assert(len * (2 * (n * b)) == n * (2 * (len * b))) by (nonlinear_arith);
        assert((MAX_SAMPLES * n) * (2 * r + 1) == n * (MAX_SAMPLES * (2 * r + 1)))
            by (nonlinear_arith);
        assert(n * (2 * (len * b)) <= n * (MAX_SAMPLES * (2 * r + 1)));
    }
    assert(0 < len * b) by (nonlinear_arith)
        requires
            len > 0,
            b >= 1,
    ;
}

/// `num / den` to the nearest integer, halves away from zero.
fn round_div(num: i128, den: i128) -> (r: i128)
    requires
        0 < den <= 0x20_0000_0000_0000_0000_0000,
        -0x1000_0000_0000_0000_0000_0000_0000 <= num <= 0x1000_0000_0000_0000_0000_0000_0000,
    ensures
        r == rounded(num as int, den as int),
{
    if num >= 0 {
        (2 * num + den) / (2 * den)
    } else {
        let m: i128 = -num;
        let q: i128 = (2 * m + den) / (2 * den);
        assert(0 <= q <= 2 * m + den) by (nonlinear_arith)
            requires
                q == (2 * m + den) / (2 * den),
                m > 0,
                den > 0,
        ;
        -q
    }
}

/// A sample times a part of a whole, in doubles.
fn weighted(sample: i16, part: u128) -> (r: i128)
    requires
        part <= 0x40_0000_0000_0000_0000_0000,
    ensures
        r == crate::double::nearest(sample * part),
        -0x40_0000_0000_0000_0000_0000_0000 <= r <= 0x40_0000_0000_0000_0000_0000_0000,
{
    assert(-0x20_0000_0000_0000_0000_0000_0000 <= sample * part
        <= 0x20_0000_0000_0000_0000_0000_0000) by (nonlinear_arith)
        requires
            -32768 <= sample <= 32767,
            0 <= part <= 0x40_0000_0000_0000_0000_0000,
    ;
    let x: i128 = sample as i128 * part as i128;
    proof {
        if x < 0 {
            crate::double::lemma_nearest(-x);
        } else {
            crate::double::lemma_nearest(x as int);
        }
    }
    crate::double::round(x)
}

/// The line between two samples, `frac / den` of the way, in doubles.
fn mix(a: i16, b: i16, frac: u128, den: u128) -> (r: i16)
    requires
        frac < den < 0x20_0000_0000_0000_0000_0000,
    ensures
        r == sample_range(
            rounded(
                crate::double::nearest(
                    crate::double::nearest(a * crate::double::nearest(den - frac))
                        + crate::double::nearest(b * frac),
                ),
                den as int,
            ),
        ),
{
    proof {
        crate::double::lemma_nearest(den - frac);
    }
    let rest: i128 = crate::double::round((den - frac) as i128);
    let sum: i128 = weighted(a, rest as u128) + weighted(b, frac);
    proof {
        if sum < 0 {
            crate::double::lemma_nearest(-sum);
        } else {
            crate::double::lemma_nearest(sum as int);
        }
    }
    let v: i128 = round_div(crate::double::round(sum), den as i128);
    if v < -32768 {
        -32768
    } else if v > 32767 {
        32767
    } else {
        v as i16
    }
}

/// Linear-interpolation resampling of mono PCM16 from `in_rate` to `out_rate` (Hz).
///
/// Equal rates, an empty input or a zero rate give the input unchanged. The positions and the
/// interpolation are those of doubles; halves round away from zero.
#[must_use]
pub fn resample_linear(input: &[i16], in_rate: u32, out_rate: u32) -> (r: Vec<i16>)
    requires
        can_resample(input@.len() as int, in_rate, out_rate),
    ensures
        r@ == resampled(input@, in_rate, out_rate),
{
    if input.len() == 0 || in_rate == 0 || out_rate == 0 || in_rate == out_rate {
        return vstd::slice::slice_to_vec(input);
    }
    let ghost len = input@.len() as int;
    proof {
        lemma_ratio(len, in_rate, out_rate);
        crate::double::lemma_quotient(
            len * crate::double::quotient(in_rate as int, out_rate as int).den,
            crate::double::quotient(in_rate as int, out_rate as int).num,
        );
    }
    let ratio: Double = crate::double::divide(in_rate as u128, out_rate as u128);
    let over: u128 = input.len() as u128 * ratio.den;
    let n: Double = crate::double::divide(over, ratio.num);
    let out_len: usize = (n.num / n.den) as usize;
    let mut out: Vec<i16> = Vec::new();
    let mut i: usize = 0;
    while i < out_len
        invariant
            i <= out_len,
            out@.len() == i,
            len == input@.len(),
            !resample_is_identity(len, in_rate, out_rate),
            can_resample(len, in_rate, out_rate),
            ratio@ == crate::double::quotient(in_rate as int, out_rate as int),
            1 <= ratio.den < 0x20_0000_0000_0000_0000_0000,
            out_len == resampled_len(len, in_rate, out_rate),
            forall|k: int| 0 <= k < i ==> #[trigger] out@[k] == interpolated(input@, ratio@, k),
        decreases out_len - i,
    {
        proof {
            lemma_positions(len, in_rate, out_rate, i as int);
            crate::double::lemma_nearest(i * ratio.num);
        }
        let pos: u128 = crate::double::round((i as u128 * ratio.num) as i128) as u128;
        let i0: usize = (pos / ratio.den) as usize;
        let frac: u128 = pos % ratio.den;
        let i1: usize = if input.len() - i0 > 1 {
            i0 + 1
        } else {
            input.len() - 1
        };
        out.push(mix(input[i0], input[i1], frac, ratio.den));
        i = i + 1;
    }
    assert(out@ =~= resampled(input@, in_rate, out_rate));
    out
}

/// Resampling keeps the duration: the number of samples is the input's length times the ratio of
/// the rates, to within two.
pub proof fn law_resampled_duration(len: int, in_rate: u32, out_rate: u32)
    requires
        0 < len,
        !resample_is_identity(len, in_rate, out_rate),
        can_resample(len, in_rate, out_rate),
    ensures
        ({
            let n = resampled_len(len, in_rate, out_rate);
            &&& n >= 0
            &&& (n - 1) * in_rate <= len * out_rate
            &&& len * out_rate < (n + 2) * in_rate
        }),
{
    let i = in_rate as int;
    let o = out_rate as int;
    let ratio = crate::double::quotient(i, o);
    lemma_ratio(len, in_rate, out_rate);
    crate::double::lemma_quotient(i, o);
    let r = ratio.num;
    let b = ratio.den;
    let q = crate::double::quotient(len * b, r);
    crate::double::lemma_quotient(len * b, r);
    let m = q.num;
    let k = q.den;
    let n = m / k;
    assert(n >= 0 && n * k <= m && m < (n + 1) * k) by (nonlinear_arith)
        requires
            n == m / k,
            m >= 0,
            k >= 1,
    ;
    let lb = len * b;
    assert(2 * (n * r) <= 2 * lb + r && 2 * lb < r * (2 * n + 3)) by (nonlinear_arith)
        requires
            n * k <= m,
            m < (n + 1) * k,
            2 * (lb * k) - r <= 2 * (r * m) <= 2 * (lb * k) + r,
            k >= 1,
            r >= 1,
            n >= 0,
            lb >= 0,
    ;
    let lo = len * o;
    assert(2 * (lb * i) <= lo * (2 * r + 1) && lo * (2 * r - 1) <= 2 * (lb * i))
        by (nonlinear_arith)
        requires
            2 * (i * b) - o <= 2 * (o * r) <= 2 * (i * b) + o,
            lb == len * b,
            lo == len * o,
            len > 0,
    ;
    assert(4 * lo <= r * i) by (nonlinear_arith)
        requires
            lo <= MAX_SAMPLES * i,
            r >= 4 * MAX_SAMPLES,
            i >= 1,
    ;
    assert((n - 1) * i <= lo) by (nonlinear_arith)
        requires
            2 * (n * r) <= 2 * lb + r,
            2 * (lb * i) <= lo * (2 * r + 1),
            4 * lo <= r * i,
            r >= 1,
            i >= 1,
            lo >= 0,
    {
        assert(2 * (n * r) * i <= (2 * lb + r) * i) by (nonlinear_arith)
            requires
                2 * (n * r) <= 2 * lb + r,
                i >= 1,
        ;
        assert((2 * lb + r) * i == 2 * (lb * i) + r * i) by (nonlinear_arith);
        assert(lo * (2 * r + 1) == 2 * (r * lo) + lo) by (nonlinear_arith);
        assert(2 * (n * r) * i == 2 * (r * (n * i))) by (nonlinear_arith);
        assert(r * (n * i) - r * lo == r * (n * i - lo)) by (nonlinear_arith);
        assert(8 * (r * (n * i - lo)) <= 5 * (r * i));
        assert(8 * (n * i - lo) <= 5 * i) by (nonlinear_arith)
            requires
                8 * (r * (n * i - lo)) <= 5 * (r * i),
                r >= 1,
        ;
        assert((n - 1) * i == n * i - i) by (nonlinear_arith);
    }
    assert(lo < (n + 2) * i) by (nonlinear_arith)
        requires
            2 * lb < r * (2 * n + 3),
            lo * (2 * r - 1) <= 2 * (lb * i),
            4 * lo <= r * i,
            r >= 1,
            i >= 1,
            lo >= 0,
    {
        assert(2 * lb * i < (r * (2 * n + 3)) * i) by (nonlinear_arith)
            requires
                2 * lb < r * (2 * n + 3),
                i >= 1,
        ;
        assert(2 * lb * i == 2 * (lb * i)) by (nonlinear_arith);
        assert(lo * (2 * r - 1) == 2 * (r * lo) - lo) by (nonlinear_arith);
        assert((r * (2 * n + 3)) * i == 2 * (r * (n * i)) + 3 * (r * i)) by (nonlinear_arith);
        assert(r * lo - r * (n * i) == r * (lo - n * i)) by (nonlinear_arith);
        assert(8 * (r * (lo - n * i)) < 13 * (r * i));
        assert(8 * (lo - n * i) < 13 * i) by (nonlinear_arith)
            requires
                8 * (r * (lo - n * i)) < 13 * (r * i),
                r >= 1,
        ;
        assert((n + 2) * i == n * i + 2 * i) by (nonlinear_arith);
    }
}

/// Resampling silence gives silence.
pub proof fn law_resampled_silence(input: Seq<i16>, in_rate: u32, out_rate: u32, i: int)
    requires
        can_resample(input.len() as int, in_rate, out_rate),
        0 <= i < resampled(input, in_rate, out_rate).len(),
        forall|k: int| 0 <= k < input.len() ==> input[k] == 0,
    ensures
        resampled(input, in_rate, out_rate)[i] == 0,
{
    let len = input.len() as int;
    if !resample_is_identity(len, in_rate, out_rate) {
        lemma_ratio(len, in_rate, out_rate);
        let ratio = crate::double::quotient(in_rate as int, out_rate as int);
        let n = crate::double::quotient(len * ratio.den, ratio.num);
        crate::double::lemma_quotient(len * ratio.den, ratio.num);
        assert(n.num / n.den >= 0) by (nonlinear_arith)
            requires
                n.num >= 0,
                n.den >= 1,
        ;
        lemma_positions(len, in_rate, out_rate, i);
        let pos = crate::double::nearest(i * ratio.num);
        let frac = pos % ratio.den;
        let rest = crate::double::nearest(ratio.den - frac);
        assert(0 * rest == 0 && 0 * frac == 0);
        crate::double::law_small_integers_are_doubles(0);
        assert((2 * 0 + ratio.den) / (2 * ratio.den) == 0) by (nonlinear_arith)
            requires
                ratio.den >= 1,
        ;
    }
}

/// The largest magnitude in a block of samples, zero for an empty one.
pub open spec fn peak_of(pcm: Seq<i16>) -> int
    decreases pcm.len(),
{
    if pcm.len() == 0 {
        0
    } else {
        let m = if pcm.last() < 0 {
            -pcm.last()
        } else {
            pcm.last() as int
        };
        crate::capture::larger(peak_of(pcm.drop_last()), m)
    }
}

/// The largest magnitude in a block of samples, zero for an empty one.
pub fn peak_magnitude(pcm: &[i16]) -> (r: u32)
    ensures
        r == peak_of(pcm@),
        r <= 32768,
        forall|i: int| 0 <= i < pcm@.len() ==> -r <= #[trigger] pcm@[i] <= r,
{
    let mut peak: i32 = 0;
    let mut i: usize = 0;
    while i < pcm.len()
        invariant
            i <= pcm.len(),
            0 <= peak <= 32768,
            peak == peak_of(pcm@.take(i as int)),
            forall|k: int| 0 <= k < i ==> -peak <= #[trigger] pcm@[k] <= peak,
        decreases pcm.len() - i,
    {
        let s: i32 = pcm[i] as i32;
        let m: i32 = if s < 0 {
            -s
        } else {
            s
        };
        if m > peak {
            peak = m;
        }
        i = i + 1;
        proof {
            assert(pcm@.take(i as int).drop_last() =~= pcm@.take(i - 1));
        }
    }
    proof {
        assert(pcm@.take(i as int) =~= pcm@);
    }
    peak as u32
}

/// Collects PCM16 samples and gives them out in frames of one size, keeping the remainder for the
/// next push.
#[derive(Debug)]
pub struct FrameAccumulator {
    frame_size: usize,
    remainder: Vec<i16>,
}

/// The whole frames of `size` samples at the front of `all`.
pub open spec fn whole_frames(all: Seq<i16>, size: int) -> Seq<Seq<i16>> {
    Seq::new(
        (all.len() as int / size) as nat,
        |k: int| all.subrange(k * size, (k + 1) * size),
    )
}

/// What is left of `all` after its whole frames of `size` samples.
pub open spec fn frame_rest(all: Seq<i16>, size: int) -> Seq<i16> {
    all.subrange((all.len() as int / size) * size, all.len() as int)
}

/// The samples of a list of frames, end to end.
pub open spec fn joined(parts: Seq<Seq<i16>>) -> Seq<i16>
    decreases parts.len(),
{
    if parts.len() == 0 {
        Seq::empty()
    } else {
        joined(parts.drop_last()) + parts.last()
    }
}

/// No sample is lost or reordered: the whole frames and the rest are the input.
pub proof fn law_framing_conserves(all: Seq<i16>, size: int)
    requires
        size >= 1,
    ensures
        joined(whole_frames(all, size)) + frame_rest(all, size) == all,
        frame_rest(all, size).len() < size,
{
    let n = all.len() as int / size;
    assert(0 <= n && n * size <= all.len() && all.len() - n * size < size) by (nonlinear_arith)
        requires
            n == all.len() as int / size,
            size >= 1,
    ;
    lemma_joined_prefix(all, size, n);
    assert(whole_frames(all, size).take(n) =~= whole_frames(all, size));
    assert(all.subrange(0, n * size) + all.subrange(n * size, all.len() as int) =~= all);
}

proof fn lemma_joined_prefix(all: Seq<i16>, size: int, k: int)
    requires
        size >= 1,
        0 <= k <= all.len() as int / size,
    ensures
        0 <= k * size <= all.len(),
        joined(whole_frames(all, size).take(k)) == all.subrange(0, k * size),
    decreases k,
{
    let n = all.len() as int / size;
    assert(0 <= k * size <= all.len()) by (nonlinear_arith)
        requires
            n == all.len() as int / size,
            0 <= k <= n,
            size >= 1,
    ;
    let parts = whole_frames(all, size).take(k);
    if k > 0 {
        lemma_joined_prefix(all, size, k - 1);
        assert((k - 1) * size + size == k * size) by (nonlinear_arith);
        assert(parts.drop_last() =~= whole_frames(all, size).take(k - 1));
        assert(parts.last() == all.subrange((k - 1) * size, k * size));
        assert(all.subrange(0, (k - 1) * size) + all.subrange((k - 1) * size, k * size)
            =~= all.subrange(0, k * size));
    } else {
        assert(0 * size == 0) by (nonlinear_arith);
        assert(all.subrange(0, 0) =~= Seq::<i16>::empty());
    }
}

/// The frames that a stream gives in all, pushed in parts onto held samples.
pub open spec fn frames_of_pushes(held: Seq<i16>, parts: Seq<Seq<i16>>, size: int) -> Seq<Seq<i16>>
    decreases parts.len(),
{
    if parts.len() == 0 {
        Seq::empty()
    } else {
        let before = parts.drop_last();
        frames_of_pushes(held, before, size) + whole_frames(
            rest_of_pushes(held, before, size) + parts.last(),
            size,
        )
    }
}

/// What is held after a stream was pushed in parts onto held samples.
pub open spec fn rest_of_pushes(held: Seq<i16>, parts: Seq<Seq<i16>>, size: int) -> Seq<i16>
    decreases parts.len(),
{
    if parts.len() == 0 {
        held
    } else {
        frame_rest(rest_of_pushes(held, parts.drop_last(), size) + parts.last(), size)
    }
}

proof fn lemma_frames_add(all: Seq<i16>, more: Seq<i16>, size: int)
    requires
        size >= 1,
    ensures
        whole_frames(all + more, size) == whole_frames(all, size) + whole_frames(
            frame_rest(all, size) + more,
            size,
        ),
        frame_rest(all + more, size) == frame_rest(frame_rest(all, size) + more, size),
{
    let a = all.len() as int;
    let b = more.len() as int;
    let n = a / size;
    assert(0 <= n && 0 <= n * size <= a) by (nonlinear_arith)
        requires
            n == a / size,
            size >= 1,
            a >= 0,
    ;
    let rest = frame_rest(all, size) + more;
    let m = rest.len() as int / size;
    assert(rest.len() == a + b - n * size);
    assert((a + b) / size == n + m && 0 <= m && m * size <= rest.len()) by (nonlinear_arith)
        requires
            rest.len() == a + b - n * size,
            rest.len() >= 0,
            m == rest.len() as int / size,
            size >= 1,
    ;
    assert((n + m) * size == n * size + m * size) by (nonlinear_arith);
    let left = whole_frames(all + more, size);
    let right = whole_frames(all, size) + whole_frames(rest, size);
    assert forall|k: int| 0 <= k < n + m implies #[trigger] left[k] == right[k] by {
        assert((k + 1) * size == k * size + size && 0 <= k * size) by (nonlinear_arith)
            requires
                0 <= k,
                size >= 1,
        ;
        if k < n {
            assert((k + 1) * size <= n * size) by (nonlinear_arith)
                requires
                    k + 1 <= n,
                    size >= 1,
            ;
            assert((all + more).subrange(k * size, (k + 1) * size) =~= all.subrange(
                k * size,
                (k + 1) * size,
            ));
        } else {
            let j = k - n;
            assert(j * size == k * size - n * size && (j + 1) * size == (k + 1) * size - n * size
                && 0 <= j * size && (j + 1) * size <= m * size) by (nonlinear_arith)
                requires
                    j == k - n,
                    0 <= j,
                    j + 1 <= m,
                    size >= 1,
            ;
            assert((all + more).subrange(k * size, (k + 1) * size) =~= rest.subrange(
                j * size,
                (j + 1) * size,
            ));
        }
    }
    assert(left =~= right);
    assert(frame_rest(all + more, size) =~= frame_rest(rest, size));
}

/// How a stream is cut into pushes does not matter: the frames it gives in all, and what is held
/// after it, are those of the whole stream pushed at once. Every frame has the frame's size, together
/// they are the stream up to its last whole frame, and what does not fill a frame is held.
pub proof fn law_framing_ignores_the_cut(held: Seq<i16>, parts: Seq<Seq<i16>>, size: int)
    requires
        size >= 1,
        held.len() < size,
    ensures
        ({
            let all = held + joined(parts);
            let frames = frames_of_pushes(held, parts, size);
            &&& frames == whole_frames(all, size)
            &&& rest_of_pushes(held, parts, size) == frame_rest(all, size)
            &&& forall|k: int| 0 <= k < frames.len() ==> (#[trigger] frames[k]).len() == size
            &&& joined(frames) == all.take(all.len() as int / size * size)
            &&& rest_of_pushes(held, parts, size).len() == all.len() as int % size
        }),
    decreases parts.len(),
{
    let all = held + joined(parts);
    if parts.len() == 0 {
        assert(all =~= held);
        assert(held.len() as int / size == 0) by (nonlinear_arith)
            requires
                0 <= held.len() < size,
        ;
        assert(0 * size == 0) by (nonlinear_arith);
        assert(whole_frames(all, size) =~= Seq::empty());
        assert(frame_rest(all, size) =~= held);
    } else {
        let before = parts.drop_last();
        law_framing_ignores_the_cut(held, before, size);
        lemma_frames_add(held + joined(before), parts.last(), size);
        assert(all =~= (held + joined(before)) + parts.last());
    }
    let n = all.len() as int / size;
    assert(0 <= n && 0 <= n * size <= all.len() && all.len() as int % size == all.len() - n * size)
        by (nonlinear_arith)
        requires
            n == all.len() as int / size,
            size >= 1,
    ;
    lemma_joined_prefix(all, size, n);
    assert(whole_frames(all, size).take(n) =~= whole_frames(all, size));
    assert(all.subrange(0, n * size) =~= all.take(n * size));
    let frames = whole_frames(all, size);
    assert forall|k: int| 0 <= k < frames.len() implies (#[trigger] frames[k]).len() == size by {
        assert(0 <= k * size && (k + 1) * size == k * size + size && (k + 1) * size <= n * size)
            by (nonlinear_arith)
            requires
                0 <= k,
                k + 1 <= n,
                size >= 1,
        ;
    }
}

impl FrameAccumulator {
    /// The frame size.
    pub closed spec fn size(self) -> int {
        self.frame_size as int
    }

    /// The samples held back.
    pub closed spec fn held(self) -> Seq<i16> {
        self.remainder@
    }

    /// The frame size is at least one, and less than a frame is held back.
    pub open spec fn wf(self) -> bool {
        &&& self.size() >= 1
        &&& self.held().len() < self.size()
    }

    /// An accumulator for frames of `frame_size` samples. Zero counts as one.
    #[must_use]
    pub fn new(frame_size: usize) -> (r: Self)
        ensures
            r.wf(),
            r.size() == crate::capture::larger(frame_size as int, 1),
            r.held() == Seq::<i16>::empty(),
    {
        FrameAccumulator {
            frame_size: if frame_size >= 1 {
                frame_size
            } else {
                1
            },
            remainder: Vec::new(),
        }
    }

    /// Push samples and take the frames that they complete.
    pub fn push(&mut self, samples: &[i16]) -> (r: Vec<Vec<i16>>)
        requires
            old(self).wf(),
            old(self).held().len() + samples@.len() <= usize::MAX,
        ensures
            final(self).wf(),
            final(self).size() == old(self).size(),
            crate::text::views(r@) == whole_frames(
                old(self).held() + samples@,
                old(self).size(),
            ),
            final(self).held() == frame_rest(old(self).held() + samples@, old(self).size()),
    {
        let ghost all = self.remainder@ + samples@;
        let mut buffer: Vec<i16> = Vec::new();
        buffer.append(&mut self.remainder);
        let mut i: usize = 0;
        while i < samples.len()
            invariant
                i <= samples.len(),
                buffer@ =~= old(self).remainder@ + samples@.take(i as int),
                self.frame_size == old(self).frame_size,
            decreases samples.len() - i,
        {
            buffer.push(samples[i]);
            i = i + 1;
            assert(samples@.take(i as int) =~= samples@.take(i - 1).push(samples@[i - 1]));
        }
        assert(samples@.take(i as int) =~= samples@);
        assert(buffer@ =~= all);
        let size: usize = self.frame_size;
        let ghost n = all.len() as int / size as int;
        proof {
            assert(0 <= n && n * size <= all.len() && all.len() - n * size < size)
                by (nonlinear_arith)
                requires
                    n == all.len() as int / size as int,
                    size >= 1,
            ;
            assert(0 * size == 0) by (nonlinear_arith);
        }
        let mut out: Vec<Vec<i16>> = Vec::new();
        let mut start: usize = 0;
        while buffer.len() - start >= size
            invariant
                size >= 1,
                start <= buffer.len(),
                buffer@ == all,
                n == all.len() as int / size as int,
                all.len() - n * size < size,
                n * size <= all.len(),
                start == out@.len() * size,
                out@.len() <= n,
                forall|k: int|
                    0 <= k < out@.len() ==> (#[trigger] out@[k])@ == all.subrange(
                        k * size,
                        (k + 1) * size,
                    ),
            decreases buffer.len() - start,
        {
            let ghost m = out@.len() as int;
            proof {
                assert((m + 1) * size == m * size + size) by (nonlinear_arith);
                assert(m < n) by (nonlinear_arith)
                    requires
                        m * size + size <= all.len(),
                        all.len() < n * size + size,
                        size >= 1,
                ;
            }
            out.push(
                vstd::slice::slice_to_vec(
                    vstd::slice::slice_subrange(buffer.as_slice(), start, start + size),
                ),
            );
            start = start + size;
        }
        proof {
            let m = out@.len() as int;
            assert(m == n) by (nonlinear_arith)
                requires
                    m <= n,
                    n * size <= all.len(),
                    all.len() - m * size < size,
                    size >= 1,
            ;
            assert(crate::text::views(out@) =~= whole_frames(all, size as int));
        }
        self.remainder =
        vstd::slice::slice_to_vec(
            vstd::slice::slice_subrange(buffer.as_slice(), start, buffer.len()),
        );
        out
    }

    /// Samples held back, waiting for a full frame.
    #[must_use]
    pub fn buffered(&self) -> (r: usize)
        ensures
            r == self.held().len(),
    {
        self.remainder.len()
    }
}

/// Playback buffer: provider PCM goes in, blocks of a fixed size come out, silence where there is
/// nothing left.
#[derive(Debug)]
pub struct JitterBuffer {
    queue: VecDeque<i16>,
}

/// A queue with a chunk behind it.
pub open spec fn enqueued(queue: Seq<i16>, chunk: Seq<i16>) -> Seq<i16> {
    queue + chunk
}

/// The first `n` samples of `queue`, silence past its end.
pub open spec fn pulled(queue: Seq<i16>, n: int) -> Seq<i16> {
    Seq::new(
        n as nat,
        |i: int|
            if i < queue.len() {
                queue[i]
            } else {
                0i16
            },
    )
}

/// What is left of `queue` after `n` samples were pulled.
pub open spec fn left_over(queue: Seq<i16>, n: int) -> Seq<i16> {
    if n < queue.len() {
        queue.subrange(n, queue.len() as int)
    } else {
        Seq::empty()
    }
}

impl View for JitterBuffer {
    type V = Seq<i16>;

    closed spec fn view(&self) -> Seq<i16> {
        self.queue@
    }
}

impl JitterBuffer {
    /// An empty buffer.
    #[must_use]
    pub fn new() -> (r: Self)
        ensures
            r@ == Seq::<i16>::empty(),
    {
        JitterBuffer { queue: VecDeque::new() }
    }

    /// Append a chunk of output PCM.
    pub fn enqueue(&mut self, chunk: &[i16])
        requires
            old(self)@.len() + chunk@.len() <= usize::MAX,
        ensures
            final(self)@ == enqueued(old(self)@, chunk@),
    {
        let mut i: usize = 0;
        while i < chunk.len()
            invariant
                i <= chunk.len(),
                self@ =~= old(self)@ + chunk@.take(i as int),
            decreases chunk.len() - i,
        {
            self.queue.push_back(chunk[i]);
            i = i + 1;
            assert(chunk@.take(i as int) =~= chunk@.take(i - 1).push(chunk@[i - 1]));
        }
        assert(chunk@.take(i as int) =~= chunk@);
    }

    /// Samples buffered.
    #[must_use]
    pub fn buffered(&self) -> (r: usize)
        ensures
            r == self@.len(),
    {
        self.queue.len()
    }

    /// Pull exactly `n` samples; a missing tail is silence.
    pub fn pull(&mut self, n: usize) -> (r: Vec<i16>)
        ensures
            r@ == pulled(old(self)@, n as int),
            final(self)@ == left_over(old(self)@, n as int),
    {
        let mut out: Vec<i16> = Vec::new();
        let mut i: usize = 0;
        assert(left_over(self@, 0) =~= self@);
        while i < n
            invariant
                i <= n,
                out@ =~= pulled(old(self)@, i as int),
                self@ =~= left_over(old(self)@, i as int),
            decreases n - i,
        {
            match self.queue.pop_front() {
                Some(s) => {
                    out.push(s);
                },
                None => {
                    out.push(0);
                },
            }
            i = i + 1;
        }
        out
    }

    /// Drop all buffered audio at once.
    pub fn flush(&mut self)
        ensures
            final(self)@ == Seq::<i16>::empty(),
    {
        self.queue.clear();
    }
}

/// Two chunks enqueued one after the other leave the queue that both leave at once: what was queued
/// stays in front, then comes the first and then the second.
pub proof fn law_enqueue_in_parts(queue: Seq<i16>, a: Seq<i16>, b: Seq<i16>)
    ensures
        enqueued(enqueued(queue, a), b) == enqueued(queue, a + b),
        enqueued(queue, a + b) == queue + a + b,
        enqueued(enqueued(queue, a), b).len() == queue.len() + a.len() + b.len(),
{
    assert(enqueued(enqueued(queue, a), b) =~= enqueued(queue, a + b));
}

/// What is pulled is what was queued, in order, then silence: pulling `a` samples and then `b`
/// gives the same as pulling `a + b` at once.
pub proof fn law_pull_in_parts(queue: Seq<i16>, a: int, b: int)
    requires
        0 <= a,
        0 <= b,
    ensures
        pulled(queue, a) + pulled(left_over(queue, a), b) == pulled(queue, a + b),
        left_over(left_over(queue, a), b) == left_over(queue, a + b),
{
    assert(pulled(queue, a) + pulled(left_over(queue, a), b) =~= pulled(queue, a + b));
    assert(left_over(left_over(queue, a), b) =~= left_over(queue, a + b));
}

/// After a flush every pull is silence.
pub proof fn law_flush_silences(n: int)
    requires
        0 <= n,
    ensures
        pulled(Seq::empty(), n) == Seq::new(n as nat, |i: int| 0i16),
{
    assert(pulled(Seq::empty(), n) =~= Seq::new(n as nat, |i: int| 0i16));
}

/// What Joi sends is 16 kHz mono, what it gets 24 kHz mono.
pub proof fn law_formats()
    ensures
        AudioFormat::spec_input().sample_rate == 16_000,
        AudioFormat::spec_input().channels == 1,
        AudioFormat::spec_output().sample_rate == 24_000,
        AudioFormat::spec_output().channels == 1,
{
}

/// The frames of a buffer follow each other without a gap from its beginning to its end, all of one size
/// but for the last, which is not empty.
pub proof fn law_frames_cover_the_buffer(len: int, size: int, k: int)
    requires
        0 <= len,
        1 <= size,
        0 <= k < frame_count(len, size),
    ensures
        k * size < frame_end(len, size, k) <= len,
        k + 1 < frame_count(len, size) ==> frame_end(len, size, k) == (k + 1) * size,
        k + 1 == frame_count(len, size) ==> frame_end(len, size, k) == len,
        frame_count(0, size) == 0,
{
    let n = frame_count(len, size);
    assert(n * size <= len + size - 1 && len + size - 1 < (n + 1) * size) by (nonlinear_arith)
        requires
            n == (len + size - 1) / size,
            size >= 1,
    ;
    assert((n + 1) * size == n * size + size) by (nonlinear_arith);
    assert((k + 1) * size == k * size + size) by (nonlinear_arith);
    assert(k + 1 < n ==> (k + 1) * size + size <= n * size) by (nonlinear_arith)
        requires
            size >= 1,
    ;
    assert((0 + size - 1) / size == 0) by (nonlinear_arith)
        requires
            size >= 1,
    ;
}

/// Rounding moves a quotient by at most a half, a half itself away from zero, and the same way on either
/// side of zero.
pub proof fn law_rounding(num: int, den: int)
    requires
        den >= 1,
    ensures
        2 * num - den <= 2 * (rounded(num, den) * den) <= 2 * num + den,
        num >= 0 && 2 * num == 2 * (rounded(num, den) * den) + den ==> false,
        rounded(-num, den) == -rounded(num, den),
{
    let p = if num >= 0 {
        num
    } else {
        -num
    };
    let q = (2 * p + den) / (2 * den);
    assert(q * (2 * den) <= 2 * p + den < (q + 1) * (2 * den)) by (nonlinear_arith)
        requires
            q == (2 * p + den) / (2 * den),
            den >= 1,
    ;
    assert(q * (2 * den) == 2 * (q * den) && (q + 1) * (2 * den) == 2 * (q * den) + 2 * den)
        by (nonlinear_arith);
    assert((-q) * den == -(q * den)) by (nonlinear_arith);
    if num == 0 {
        assert(den / (2 * den) == 0) by (nonlinear_arith)
            requires
                den >= 1,
        ;
    }
}

/// A value in the range of a sample stays; one beyond it becomes the nearest end.
pub proof fn law_range_of_a_sample(v: int)
    ensures
        -32768 <= v <= 32767 ==> sample_range(v) == v,
        v > 32767 ==> sample_range(v) == 32767,
        v < -32768 ==> sample_range(v) == -32768,
{
}

/// No magnitude is above the peak, and some sample has it.
pub proof fn law_peak_is_reached(pcm: Seq<i16>)
    ensures
        pcm.len() == 0 ==> peak_of(pcm) == 0,
        forall|i: int| 0 <= i < pcm.len() ==> -peak_of(pcm) <= #[trigger] pcm[i] <= peak_of(pcm),
        pcm.len() > 0 ==> exists|i: int|
            0 <= i < pcm.len() && (#[trigger] pcm[i] == peak_of(pcm) || -pcm[i] == peak_of(pcm)),
    decreases pcm.len(),
{
    if pcm.len() > 0 {
        let front = pcm.drop_last();
        law_peak_is_reached(front);
        assert forall|i: int| 0 <= i < pcm.len() implies -peak_of(pcm) <= #[trigger] pcm[i]
            <= peak_of(pcm) by {
            if i < front.len() {
                assert(front[i] == pcm[i]);
            }
        }
        let last = pcm[pcm.len() - 1];
        if peak_of(pcm) != last && peak_of(pcm) != -last {
            assert(peak_of(pcm) == peak_of(front));
            if front.len() > 0 {
                let i = choose|i: int|
                    0 <= i < front.len() && (#[trigger] front[i] == peak_of(front) || -front[i]
                        == peak_of(front));
                assert(pcm[i] == front[i]);
            }
        }
    }
}

/// What is pulled comes from the front of the queue, and what is left is the rest of it; a pull beyond
/// its end gives all of it and silence.
pub proof fn law_pull_takes_the_front(queue: Seq<i16>, n: nat, i: int)
    ensures
        pulled(queue, n as int).len() == n,
        n <= queue.len() ==> pulled(queue, n as int) + left_over(queue, n as int) == queue,
        n >= queue.len() ==> pulled(queue, n as int).take(queue.len() as int) == queue,
        n >= queue.len() ==> left_over(queue, n as int).len() == 0,
        queue.len() <= i < n ==> pulled(queue, n as int)[i] == 0,
{
    if n <= queue.len() {
        assert(pulled(queue, n as int) + left_over(queue, n as int) =~= queue);
    }
    if n >= queue.len() {
        assert(pulled(queue, n as int).take(queue.len() as int) =~= queue);
    }
}

/// The sample `out` lies on the straight line between two neighbouring input samples, at the position
/// `p / den`, to the nearest integer and a millionth; and that position is `i` times the ratio of the
/// rates, to one part in 2 to the 51st. Past the last input sample the line is flat.
pub open spec fn lies_on_the_line(
    input: Seq<i16>,
    out: i16,
    in_rate: u32,
    out_rate: u32,
    i: int,
    p: int,
    den: int,
) -> bool {
    let exact = i * in_rate * den;
    let k = p / den;
    let next = if k + 1 < input.len() {
        k + 1
    } else {
        k
    };
    let line = input[k] * (den - p % den) + input[next] * (p % den);
    &&& den >= 1
    &&& 0 <= k < input.len()
    &&& -exact <= 0x8_0000_0000_0000 * (p * out_rate - exact) <= exact
    &&& -1_000_001 * den <= 2_000_000 * (out * den - line) <= 1_000_001 * den
}

/// Every resampled sample lies on the line through the input at its place in time.
pub proof fn law_resampled_on_the_line(input: Seq<i16>, in_rate: u32, out_rate: u32, i: int)
    requires
        !resample_is_identity(input.len() as int, in_rate, out_rate),
        can_resample(input.len() as int, in_rate, out_rate),
        0 <= i < resampled(input, in_rate, out_rate).len(),
    ensures
        exists|p: int, den: int| #[trigger]
            lies_on_the_line(
                input,
                resampled(input, in_rate, out_rate)[i],
                in_rate,
                out_rate,
                i,
                p,
                den,
            ),
{
    let len = input.len() as int;
    lemma_ratio(len, in_rate, out_rate);
    let ratio = crate::double::quotient(in_rate as int, out_rate as int);
    let n = crate::double::quotient(len * ratio.den, ratio.num);
    crate::double::lemma_quotient(len * ratio.den, ratio.num);
    assert(n.num / n.den >= 0) by (nonlinear_arith)
        requires
            n.num >= 0,
            n.den >= 1,
    ;
    lemma_positions(len, in_rate, out_rate, i);
    let (num, den) = (ratio.num, ratio.den);
    let p = crate::double::nearest(i * num);
    lemma_position_is_near(i, in_rate as int, out_rate as int);
    let k = p / den;
    let next = if k + 1 < len {
        k + 1
    } else {
        len - 1
    };
    let frac = p % den;
    assert(0 <= frac < den) by (nonlinear_arith)
        requires
            frac == p % den,
            den >= 1,
    ;
    let (a, b) = (input[k] as int, input[next] as int);
    lemma_mixed_is_near(a, b, den, frac);
    let v = interpolated(input, ratio, i);
    assert(resampled(input, in_rate, out_rate)[i] == v);
    assert(next == (if k + 1 < len {
        k + 1
    } else {
        k
    }));
    assert(lies_on_the_line(input, v as i16, in_rate, out_rate, i, p, den));
}

proof fn lemma_position_is_near(i: int, n: int, d: int)
    requires
        0 <= i,
        0 < n <= u32::MAX,
        0 < d <= u32::MAX,
    ensures
        ({
            let ratio = crate::double::quotient(n, d);
            let exact = i * n * ratio.den;
            let p = crate::double::nearest(i * ratio.num);
            -exact <= 0x8_0000_0000_0000 * (p * d - exact) <= exact
        }),
{
    let ratio = crate::double::quotient(n, d);
    let (r, b) = (ratio.num, ratio.den);
    assert(n < crate::double::OVER * d) by (nonlinear_arith)
        requires
            n <= u32::MAX,
            d >= 1,
    ;
    crate::double::lemma_quotient(n, d);
    let x = i * r;
    assert(x >= 0) by (nonlinear_arith)
        requires
            x == i * r,
            i >= 0,
            r >= 0,
    ;
    crate::double::law_nearest_is_near(x);
    let p = crate::double::nearest(x);
    let exact = i * n * b;
    let nb = n * b;
    let dr = d * r;
    // The ratio is off by half a unit at most, and has all its bits.
    assert(0x10_0000_0000_0000 * d <= dr) by (nonlinear_arith)
        requires
            dr == d * r,
            r >= 0x10_0000_0000_0000,
            d >= 1,
    ;
    assert(dr <= 2 * nb);
    assert(0x10_0000_0000_0000 * d <= 2 * nb);
    assert(exact == i * nb) by (nonlinear_arith)
        requires
            exact == i * n * b,
            nb == n * b,
    ;
    // i * dr is near the exact position, and p * d near i * dr.
    assert(-(i * d) <= 2 * (i * dr - i * nb) <= i * d) by (nonlinear_arith)
        requires
            2 * nb - d <= 2 * dr <= 2 * nb + d,
            i >= 0,
    ;
    assert(0x10_0000_0000_0000 * (i * d) <= 2 * (i * nb)) by (nonlinear_arith)
        requires
            0x10_0000_0000_0000 * d <= 2 * nb,
            i >= 0,
    ;
    assert(i * dr <= 2 * (i * nb)) by (nonlinear_arith)
        requires
            dr <= 2 * nb,
            i >= 0,
    ;
    assert(x * d == i * dr) by (nonlinear_arith)
        requires
            x == i * r,
            dr == d * r,
    ;
    assert(-(x * d) <= 0x20_0000_0000_0000 * (p * d - x * d) <= x * d) by (nonlinear_arith)
        requires
            -x <= 0x20_0000_0000_0000 * (p - x) <= x,
            d >= 1,
    ;
}

proof fn lemma_mixed_is_near(a: int, b: int, den: int, frac: int)
    requires
        -32768 <= a <= 32767,
        -32768 <= b <= 32767,
        0 <= frac < den,
    ensures
        ({
            let rest = crate::double::nearest(den - frac);
            let sum = crate::double::nearest(
                crate::double::nearest(a * rest) + crate::double::nearest(b * frac),
            );
            let out = sample_range(rounded(sum, den));
            let line = a * (den - frac) + b * frac;
            -1_000_001 * den <= 2_000_000 * (out * den - line) <= 1_000_001 * den
        }),
{
    let whole = den - frac;
    let rest = crate::double::nearest(whole);
    crate::double::law_nearest_is_near(whole);
    let x = a * rest;
    let y = b * frac;
    let e = a * (rest - whole);
    assert(x == a * whole + e) by (nonlinear_arith)
        requires
            x == a * rest,
            e == a * (rest - whole),
    ;
    assert(-32768 * den <= 0x20_0000_0000_0000 * e <= 32768 * den) by (nonlinear_arith)
        requires
            e == a * (rest - whole),
            -32768 <= a <= 32767,
            -whole <= 0x20_0000_0000_0000 * (rest - whole) <= whole,
            whole <= den,
    ;
    assert(-65536 * den <= x <= 65536 * den) by (nonlinear_arith)
        requires
            x == a * rest,
            -32768 <= a <= 32767,
            0 <= rest <= 2 * den,
    ;
    assert(-32768 * den <= y <= 32768 * den) by (nonlinear_arith)
        requires
            y == b * frac,
            -32768 <= b <= 32767,
            0 <= frac <= den,
    ;
    crate::double::law_nearest_is_near(x);
    crate::double::law_nearest_is_near(y);
    let s = crate::double::nearest(x) + crate::double::nearest(y);
    crate::double::law_nearest_is_near(s);
    let sum = crate::double::nearest(s);
    let line = a * whole + b * frac;
    assert(-den <= 2_000_000 * (sum - line) <= den);
    law_rounding(sum, den);
    let v = rounded(sum, den);
    assert(-1_000_001 * den <= 2_000_000 * (v * den - line) <= 1_000_001 * den);
    assert(-32768 * den <= line <= 32767 * den) by (nonlinear_arith)
        requires
            line == a * whole + b * frac,
            whole + frac == den,
            whole >= 0,
            frac >= 0,
            -32768 <= a <= 32767,
            -32768 <= b <= 32767,
    ;
    if v > 32767 {
        assert(v * den >= 32768 * den) by (nonlinear_arith)
            requires
                v >= 32768,
                den >= 1,
        ;
    } else if v < -32768 {
        assert(v * den <= -32769 * den) by (nonlinear_arith)
            requires
                v <= -32769,
                den >= 1,
        ;
    }
}

/// How many samples resampling gives: the input's length times the ratio of the rates, rounded down,
/// where that product is known to one part in 2 to the 52nd.
pub proof fn law_resampled_length(len: int, in_rate: u32, out_rate: u32)
    requires
        0 < len,
        !resample_is_identity(len, in_rate, out_rate),
        can_resample(len, in_rate, out_rate),
    ensures
        ({
            let n = resampled_len(len, in_rate, out_rate);
            &&& 0 <= n
            &&& 0x1f_ffff_ffff_ffff * (n * in_rate) <= 0x20_0000_0000_0001 * (len * out_rate)
            &&& 0x1f_ffff_ffff_ffff * (len * out_rate) < 0x20_0000_0000_0001 * ((n + 1) * in_rate)
        }),
{
    let i = in_rate as int;
    let o = out_rate as int;
    lemma_ratio(len, in_rate, out_rate);
    assert(i < crate::double::OVER * o) by (nonlinear_arith)
        requires
            i <= u32::MAX,
            o >= 1,
    ;
    crate::double::lemma_quotient(i, o);
    let ratio = crate::double::quotient(i, o);
    let (r, b) = (ratio.num, ratio.den);
    let lb = len * b;
    crate::double::lemma_quotient(lb, r);
    let q = crate::double::quotient(lb, r);
    let (m, k) = (q.num, q.den);
    let n = m / k;
    assert(n >= 0 && n * k <= m && m < (n + 1) * k) by (nonlinear_arith)
        requires
            n == m / k,
            m >= 0,
            k >= 1,
    ;
    let ib = i * b;
    let or = o * r;
    assert(0x10_0000_0000_0000 * o <= or) by (nonlinear_arith)
        requires
            or == o * r,
            r >= 0x10_0000_0000_0000,
            o >= 1,
    ;
    // The ratio is known to one part in 2 to the 53rd.
    assert(0x1f_ffff_ffff_ffff * or <= 0x20_0000_0000_0000 * ib <= 0x20_0000_0000_0001 * or);
    let rm = r * m;
    assert(0x10_0000_0000_0000 * r <= rm) by (nonlinear_arith)
        requires
            rm == r * m,
            m >= 0x10_0000_0000_0000,
            r >= 1,
    ;
    // And so is the quotient of the length and the ratio.
    assert(0x1f_ffff_ffff_ffff * rm <= 0x20_0000_0000_0000 * (lb * k) <= 0x20_0000_0000_0001 * rm);
    assert(0x1f_ffff_ffff_ffff * (r * n) <= 0x20_0000_0000_0000 * lb) by (nonlinear_arith)
        requires
            0x1f_ffff_ffff_ffff * rm <= 0x20_0000_0000_0000 * (lb * k),
            rm == r * m,
            n * k <= m,
            k >= 1,
            r >= 1,
    {
        assert(r * (n * k) <= r * m) by (nonlinear_arith)
            requires
                n * k <= m,
                r >= 1,
        ;
        assert((0x1f_ffff_ffff_ffff * (r * n)) * k == 0x1f_ffff_ffff_ffff * (r * (n * k)))
            by (nonlinear_arith);
        assert((0x20_0000_0000_0000 * lb) * k == 0x20_0000_0000_0000 * (lb * k)) by (nonlinear_arith);
    }
    assert(0x20_0000_0000_0000 * lb < 0x20_0000_0000_0001 * (r * (n + 1))) by (nonlinear_arith)
        requires
            0x20_0000_0000_0000 * (lb * k) <= 0x20_0000_0000_0001 * rm,
            rm == r * m,
            m < (n + 1) * k,
            k >= 1,
            r >= 1,
    {
        assert(r * m < r * ((n + 1) * k)) by (nonlinear_arith)
            requires
                m < (n + 1) * k,
                r >= 1,
        ;
        assert((0x20_0000_0000_0001 * (r * (n + 1))) * k == 0x20_0000_0000_0001 * (r * ((n + 1) * k)))
            by (nonlinear_arith);
        assert((0x20_0000_0000_0000 * lb) * k == 0x20_0000_0000_0000 * (lb * k)) by (nonlinear_arith);
    }
    let lo = len * o;
    let lbi = lb * i;
    assert(lbi == len * ib) by (nonlinear_arith)
        requires
            lbi == lb * i,
            lb == len * b,
            ib == i * b,
    ;
    assert(r * lo == len * or) by (nonlinear_arith)
        requires
            lo == len * o,
            or == o * r,
    ;
    assert(0x1f_ffff_ffff_ffff * (r * lo) <= 0x20_0000_0000_0000 * lbi <= 0x20_0000_0000_0001 * (r
        * lo)) by (nonlinear_arith)
        requires
            0x1f_ffff_ffff_ffff * or <= 0x20_0000_0000_0000 * ib <= 0x20_0000_0000_0001 * or,
            lbi == len * ib,
            r * lo == len * or,
            len > 0,
    ;
    assert(0x1f_ffff_ffff_ffff * (r * (n * i)) <= 0x20_0000_0000_0000 * lbi) by (nonlinear_arith)
        requires
            0x1f_ffff_ffff_ffff * (r * n) <= 0x20_0000_0000_0000 * lb,
            lbi == lb * i,
            i >= 1,
    ;
    assert(0x20_0000_0000_0000 * lbi < 0x20_0000_0000_0001 * (r * ((n + 1) * i))) by (nonlinear_arith)
        requires
            0x20_0000_0000_0000 * lb < 0x20_0000_0000_0001 * (r * (n + 1)),
            lbi == lb * i,
            i >= 1,
    ;
    assert(0x1f_ffff_ffff_ffff * (n * i) <= 0x20_0000_0000_0001 * lo) by (nonlinear_arith)
        requires
            0x1f_ffff_ffff_ffff * (r * (n * i)) <= 0x20_0000_0000_0001 * (r * lo),
            r >= 1,
    ;
    assert(0x1f_ffff_ffff_ffff * lo < 0x20_0000_0000_0001 * ((n + 1) * i)) by (nonlinear_arith)
        requires
            0x1f_ffff_ffff_ffff * (r * lo) < 0x20_0000_0000_0001 * (r * ((n + 1) * i)),
            r >= 1,
    ;
}

} // verus!
