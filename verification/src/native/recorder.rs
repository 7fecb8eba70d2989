//! A recording of the processed microphone as a WAV file.
use vstd::prelude::*;

verus! {

/// The bytes of a header.
pub const HEADER_BYTES: u32 = 44;

/// A number as two bytes, the low one first.
pub open spec fn le16(n: int) -> Seq<u8> {
    seq![(n % 256) as u8, (n / 256 % 256) as u8]
}

/// A number as four bytes, the low one first.
pub open spec fn le32(n: int) -> Seq<u8> {
    seq![
        (n % 256) as u8,
        (n / 256 % 256) as u8,
        (n / 65536 % 256) as u8,
        (n / 16777216 % 256) as u8,
    ]
}

/// The size that a RIFF header states for so many bytes of data, as far as it can.
pub open spec fn riff_size(data_bytes: u32) -> int {
    if 36 + data_bytes <= u32::MAX {
        36 + data_bytes
    } else {
        u32::MAX as int
    }
}

/// The header of a WAV file with 16 kHz mono PCM16: `RIFF`, the size, `WAVE`, `fmt `, 16 bytes of
/// format (PCM, one channel, rate, bytes per second, bytes per sample, bits), `data`, the size.
pub open spec fn wav_header(data_bytes: u32) -> Seq<u8> {
    seq![0x52u8, 0x49, 0x46, 0x46] + le32(riff_size(data_bytes)) + seq![0x57u8, 0x41, 0x56, 0x45]
        + seq![0x66u8, 0x6d, 0x74, 0x20] + le32(16) + le16(1) + le16(1) + le32(16_000) + le32(
        32_000,
    ) + le16(2) + le16(16) + seq![0x64u8, 0x61, 0x74, 0x61] + le32(data_bytes as int)
}

fn push16(out: &mut Vec<u8>, n: u16)
    ensures
        final(out)@ == old(out)@ + le16(n as int),
{
    out.push((n % 256) as u8);
    out.push((n / 256 % 256) as u8);
    assert(out@ =~= old(out)@ + le16(n as int));
}

fn push32(out: &mut Vec<u8>, n: u32)
    ensures
        final(out)@ == old(out)@ + le32(n as int),
{
    out.push((n % 256) as u8);
    out.push((n / 256 % 256) as u8);
    out.push((n / 65536 % 256) as u8);
    out.push((n / 16777216 % 256) as u8);
    assert(out@ =~= old(out)@ + le32(n as int));
}

fn push_tag(out: &mut Vec<u8>, a: u8, b: u8, c: u8, d: u8)
    ensures
        final(out)@ == old(out)@ + seq![a, b, c, d],
{
    out.push(a);
    out.push(b);
    out.push(c);
    out.push(d);
    assert(out@ =~= old(out)@ + seq![a, b, c, d]);
}

/// The header of a WAV file with so many bytes of data.
pub fn header(data_bytes: u32) -> (r: Vec<u8>)
    ensures
        r@ == wav_header(data_bytes),
        r@.len() == HEADER_BYTES,
{
    let riff: u32 = if data_bytes <= u32::MAX - 36 {
        36 + data_bytes
    } else {
        u32::MAX
    };
    let mut out: Vec<u8> = Vec::new();
    push_tag(&mut out, 0x52, 0x49, 0x46, 0x46);
    push32(&mut out, riff);
    push_tag(&mut out, 0x57, 0x41, 0x56, 0x45);
    push_tag(&mut out, 0x66, 0x6d, 0x74, 0x20);
    push32(&mut out, 16);
    push16(&mut out, 1);
    push16(&mut out, 1);
    push32(&mut out, 16_000);
    push32(&mut out, 32_000);
    push16(&mut out, 2);
    push16(&mut out, 16);
    push_tag(&mut out, 0x64, 0x61, 0x74, 0x61);
    push32(&mut out, data_bytes);
    assert(out@ =~= wav_header(data_bytes));
    out
}

/// A recording in progress.
#[derive(Debug, Clone, Copy, PartialEq, Eq, Structural)]
pub struct ProcessedMicRecorder {
    /// Bytes of samples written so far.
    pub data_bytes: u32,
    /// Whether a write failed; nothing more is written then.
    pub failed: bool,
}

impl ProcessedMicRecorder {
    /// A recording without samples.
    pub fn new() -> (r: Self)
        ensures
            r == (ProcessedMicRecorder { data_bytes: 0, failed: false }),
    {
        ProcessedMicRecorder { data_bytes: 0, failed: false }
    }

    /// How many more samples the sizes of a WAV file can count.
    pub open spec fn room(self) -> int {
        if self.failed {
            0
        } else {
            (u32::MAX - self.data_bytes) / 2
        }
    }

    /// The samples that are written of those that come.
    pub open spec fn taken(self, samples: Seq<i16>) -> Seq<i16> {
        if samples.len() <= self.room() {
            samples
        } else {
            samples.take(self.room())
        }
    }

    /// The bytes to append for samples: as many of them as the file can still hold.
    pub fn write_samples(&self, samples: &[i16]) -> (r: Vec<u8>)
        ensures
            r@ == crate::media::le_bytes(self.taken(samples@)),
            self.data_bytes + r@.len() <= u32::MAX,
    {
        let room: u32 = if self.failed {
            0
        } else {
            (u32::MAX - self.data_bytes) / 2
        };
        let total: usize = samples.len();
        if total as u64 <= room as u64 {
            crate::media::pcm16_to_le_bytes(samples)
        } else {
            let part: &[i16] = vstd::slice::slice_subrange(samples, 0, room as usize);
            assert(part@ =~= samples@.take(room as int));
            crate::media::pcm16_to_le_bytes(part)
        }
    }

    /// Note the outcome of a write.
    pub fn wrote(&mut self, bytes: &[u8], ok: bool)
        requires
            old(self).data_bytes + bytes@.len() <= u32::MAX,
        ensures
            *final(self) == if ok {
                ProcessedMicRecorder {
                    data_bytes: (old(self).data_bytes + bytes@.len()) as u32,
                    ..*old(self)
                }
            } else {
                ProcessedMicRecorder { failed: true, ..*old(self) }
            },
    {
        if ok {
            self.data_bytes = self.data_bytes + bytes.len() as u32;
        } else {
            self.failed = true;
        }
    }

    /// The header to write over the first one when the recording ends.
    pub fn finish(&self) -> (r: Vec<u8>)
        ensures
            r@ == wav_header(self.data_bytes),
    {
        header(self.data_bytes)
    }
}

/// A number that four bytes can hold is what they hold.
pub proof fn law_sizes_read_back(n: u32)
    ensures
        ({
            let b = le32(n as int);
            b[0] + 256 * b[1] + 65536 * b[2] + 16777216 * b[3] == n
        }),
{
    let k = n as int;
    assert(k / 256 / 256 == k / 65536) by (nonlinear_arith);
    assert(k / 65536 / 256 == k / 16777216) by (nonlinear_arith);
    assert(k / 16777216 < 256) by (nonlinear_arith)
        requires
            0 <= k <= 4294967295,
    ;
}

/// The header states the size of the data twice: as it is, and with the 36 bytes of header that
/// follow the first size.
pub proof fn law_header_states_sizes(data_bytes: u32)
    requires
        36 + data_bytes <= u32::MAX,
    ensures
        wav_header(data_bytes).len() == HEADER_BYTES,
        wav_header(data_bytes).subrange(4, 8) == le32(36 + data_bytes),
        wav_header(data_bytes).subrange(40, 44) == le32(data_bytes as int),
{
    assert(wav_header(data_bytes).subrange(4, 8) =~= le32(36 + data_bytes));
    assert(wav_header(data_bytes).subrange(40, 44) =~= le32(data_bytes as int));
}

/// What is written is never more than a WAV file's sizes can count, whatever comes.
pub proof fn law_recording_fits(r: ProcessedMicRecorder, samples: Seq<i16>)
    ensures
        r.data_bytes + crate::media::le_bytes(r.taken(samples)).len() <= u32::MAX,
{
}

/// A header reads `RIFF`, `WAVE`, `fmt ` and `data` at their places, and says PCM, one channel, 16 000
/// samples and 32 000 bytes a second, two bytes and sixteen bits a sample.
pub proof fn law_header_says_its_format(data_bytes: u32)
    ensures
        ({
            let h = wav_header(data_bytes);
            &&& h.len() == 44
            &&& h.subrange(0, 4) == seq![0x52u8, 0x49, 0x46, 0x46]
            &&& h.subrange(8, 16) == seq![0x57u8, 0x41, 0x56, 0x45, 0x66, 0x6d, 0x74, 0x20]
            &&& h.subrange(16, 20) == seq![16u8, 0, 0, 0]
            &&& h.subrange(20, 24) == seq![1u8, 0, 1, 0]
            &&& h.subrange(24, 28) == seq![0x80u8, 0x3e, 0, 0]
            &&& h.subrange(28, 32) == seq![0, 0x7du8, 0, 0]
            &&& h.subrange(32, 36) == seq![2u8, 0, 16, 0]
            &&& h.subrange(36, 40) == seq![0x64u8, 0x61, 0x74, 0x61]
            &&& h.subrange(40, 44) == le32(data_bytes as int)
            &&& 36 + data_bytes > u32::MAX ==> h.subrange(4, 8) == seq![255u8, 255, 255, 255]
        }),
{
    let h = wav_header(data_bytes);
    assert(h.subrange(0, 4) =~= seq![0x52u8, 0x49, 0x46, 0x46]);
    assert(h.subrange(8, 16) =~= seq![0x57u8, 0x41, 0x56, 0x45, 0x66, 0x6d, 0x74, 0x20]);
    assert(h.subrange(16, 20) =~= seq![16u8, 0, 0, 0]);
    assert(h.subrange(20, 24) =~= seq![1u8, 0, 1, 0]);
    assert(h.subrange(24, 28) =~= seq![0x80u8, 0x3e, 0, 0]);
    assert(h.subrange(28, 32) =~= seq![0, 0x7du8, 0, 0]);
    assert(h.subrange(32, 36) =~= seq![2u8, 0, 16, 0]);
    assert(h.subrange(36, 40) =~= seq![0x64u8, 0x61, 0x74, 0x61]);
    assert(h.subrange(40, 44) =~= le32(data_bytes as int));
    if 36 + data_bytes > u32::MAX {
        assert(h.subrange(4, 8) =~= seq![255u8, 255, 255, 255]);
    }
}

/// Samples are written in their order, all of them as long as the file can count them; after a failure
/// none are.
pub proof fn law_samples_are_written_in_order(r: ProcessedMicRecorder, samples: Seq<i16>, i: int)
    ensures
        r.failed ==> r.taken(samples).len() == 0,
        !r.failed && r.data_bytes + 2 * samples.len() <= u32::MAX ==> r.taken(samples) == samples,
        !r.failed && r.data_bytes + 2 * samples.len() > u32::MAX ==> r.data_bytes + 2 * r.taken(
            samples,
        ).len() >= u32::MAX - 1,
        0 <= i < r.taken(samples).len() ==> r.taken(samples)[i] == samples[i],
{
}

} // verus!
