//! Throughput metering. Counts are kept exactly, as whole bits and quarter tokens over a window of
//! nanoseconds; a rate is a quotient of two of them.
use vstd::prelude::*;
use vstd::string::*;

verus! {

/// How often the meter is sampled while a session is live, in milliseconds.
pub const SAMPLE_INTERVAL: u64 = 1_000;

/// Milliseconds in nanoseconds.
pub open spec fn nanos(ms: u64) -> u128 {
    (ms * 1_000_000) as u128
}

/// Milliseconds in nanoseconds.
pub fn nanos_of(ms: u64) -> (r: u128)
    ensures
        r == nanos(ms),
        r == ms * 1_000_000,
{
    ms as u128 * 1_000_000
}

/// A throughput sample over one window.
///
/// The rate in kbit/s is `1_000_000 * up_bits / window_ns`; the rate in tokens/s is
/// `250_000_000 * up_quarter_tokens / window_ns`; the same holds downstream. A token is estimated at
/// four characters, so one character is a quarter token.
#[derive(Debug, Clone, Copy, PartialEq, Eq, Structural)]
pub struct MetricsSnapshot {
    /// Bits sent toward the provider.
    pub up_bits: u128,
    /// Bits received from the provider.
    pub down_bits: u128,
    /// Quarters of input tokens.
    pub up_quarter_tokens: u128,
    /// Quarters of output tokens.
    pub down_quarter_tokens: u128,
    /// Length of the window in nanoseconds.
    pub window_ns: u128,
}

impl MetricsSnapshot {
    /// The all-zero sample over one nominal window.
    pub open spec fn spec_zero() -> MetricsSnapshot {
        MetricsSnapshot {
            up_bits: 0,
            down_bits: 0,
            up_quarter_tokens: 0,
            down_quarter_tokens: 0,
            window_ns: nanos(SAMPLE_INTERVAL),
        }
    }

    /// The all-zero sample, given out once when a session stops.
    pub fn zero() -> (r: MetricsSnapshot)
        ensures
            r == MetricsSnapshot::spec_zero(),
    {
        MetricsSnapshot {
            up_bits: 0,
            down_bits: 0,
            up_quarter_tokens: 0,
            down_quarter_tokens: 0,
            window_ns: nanos_of(SAMPLE_INTERVAL),
        }
    }
}

/// Cumulative provider-reported token counts of a live session.
#[derive(Debug, Clone, Copy, PartialEq, Eq, Structural)]
pub struct TokenUsage {
    /// Input tokens counted this session.
    pub up: u64,
    /// Output tokens counted this session.
    pub down: u64,
}

/// Cumulative wire-byte counters of a live connection.
#[derive(Debug, Clone, Copy, PartialEq, Eq, Structural)]
pub struct TransportBytes {
    /// Bytes sent since the connection opened.
    pub sent: u64,
    /// Bytes received since the connection opened.
    pub received: u64,
}

/// The count nearest to `x` that a `u64` holds.
pub open spec fn saturated(x: int) -> u64 {
    if x > u64::MAX {
        u64::MAX
    } else {
        x as u64
    }
}

/// How much a counter grew, zero if it shrank.
pub open spec fn growth(current: u64, previous: u64) -> int {
    if current >= previous {
        current - previous
    } else {
        0
    }
}

/// Tallies payload bytes and characters over a window.
#[derive(Debug, Clone, Copy, PartialEq, Eq, Structural)]
pub struct ThroughputMeter {
    /// Bytes sent in the window.
    pub up_bytes: u64,
    /// Bytes received in the window.
    pub down_bytes: u64,
    /// Characters of text sent in the window.
    pub in_chars: u64,
    /// Characters of agent text received in the window.
    pub out_chars: u64,
}

impl ThroughputMeter {
    /// A meter with nothing counted.
    pub open spec fn spec_empty() -> ThroughputMeter {
        ThroughputMeter { up_bytes: 0, down_bytes: 0, in_chars: 0, out_chars: 0 }
    }

    /// The rates that the tallies stand for over `elapsed_ns`.
    pub open spec fn rate(self, elapsed_ns: u128) -> MetricsSnapshot {
        MetricsSnapshot {
            up_bits: (self.up_bytes * 8) as u128,
            down_bits: (self.down_bytes * 8) as u128,
            up_quarter_tokens: self.in_chars as u128,
            down_quarter_tokens: self.out_chars as u128,
            window_ns: elapsed_ns,
        }
    }

    /// A meter with nothing counted.
    pub fn new() -> (r: ThroughputMeter)
        ensures
            r == ThroughputMeter::spec_empty(),
    {
        ThroughputMeter { up_bytes: 0, down_bytes: 0, in_chars: 0, out_chars: 0 }
    }

    /// Record `bytes` sent toward the provider.
    pub fn add_up(&mut self, bytes: u64)
        ensures
            *final(self) == (ThroughputMeter {
                up_bytes: saturated(old(self).up_bytes + bytes),
                ..*old(self)
            }),
    {
        self.up_bytes = self.up_bytes.saturating_add(bytes);
    }

    /// Record `bytes` received from the provider.
    pub fn add_down(&mut self, bytes: u64)
        ensures
            *final(self) == (ThroughputMeter {
                down_bytes: saturated(old(self).down_bytes + bytes),
                ..*old(self)
            }),
    {
        self.down_bytes = self.down_bytes.saturating_add(bytes);
    }

    /// Record a piece of sent text; its characters feed the upstream token rate.
    pub fn add_input_text(&mut self, text: &str)
        ensures
            *final(self) == (ThroughputMeter {
                in_chars: saturated(old(self).in_chars + text@.len()),
                ..*old(self)
            }),
    {
        self.in_chars = self.in_chars.saturating_add(text.unicode_len() as u64);
    }

    /// Record a piece of agent text; its characters feed the downstream token rate.
    pub fn add_output_text(&mut self, text: &str)
        ensures
            *final(self) == (ThroughputMeter {
                out_chars: saturated(old(self).out_chars + text@.len()),
                ..*old(self)
            }),
    {
        self.out_chars = self.out_chars.saturating_add(text.unicode_len() as u64);
    }

    /// Start a new window without a sample.
    pub fn reset(&mut self)
        ensures
            *final(self) == ThroughputMeter::spec_empty(),
    {
        *self = ThroughputMeter::new();
    }

    /// Drain the window into a sample over `elapsed_ns` nanoseconds. Where no time has passed there
    /// is no sample, and the tallies stay for the next one.
    pub fn sample(&mut self, elapsed_ns: u128) -> (r: Option<MetricsSnapshot>)
        ensures
            elapsed_ns == 0 ==> r is None && *final(self) == *old(self),
            elapsed_ns > 0 ==> r == Some(old(self).rate(elapsed_ns)) && *final(self)
                == ThroughputMeter::spec_empty(),
    {
        if elapsed_ns == 0 {
            return None;
        }
        let snap: MetricsSnapshot = MetricsSnapshot {
            up_bits: self.up_bytes as u128 * 8,
            down_bits: self.down_bytes as u128 * 8,
            up_quarter_tokens: self.in_chars as u128,
            down_quarter_tokens: self.out_chars as u128,
            window_ns: elapsed_ns,
        };
        self.reset();
        Some(snap)
    }
}

/// How much a counter grew, zero if it shrank.
pub fn growth_of(current: u64, previous: u64) -> (r: u64)
    ensures
        r == growth(current, previous),
{
    current.saturating_sub(previous)
}

/// A drained window holds nothing: however long the next one is, all its rates are zero, and over
/// one nominal window it is the all-zero sample.
pub proof fn law_drained_window_is_zero(elapsed_ns: u128)
    ensures
        ThroughputMeter::spec_empty().rate(elapsed_ns) == (MetricsSnapshot {
            window_ns: elapsed_ns,
            ..MetricsSnapshot::spec_zero()
        }),
        ThroughputMeter::spec_empty().rate(nanos(SAMPLE_INTERVAL)) == MetricsSnapshot::spec_zero(),
{
}

/// A sample says exactly what was counted: eight bits for every byte, a quarter token for every
/// character, and the length of its window.
pub proof fn law_sample_says_what_was_counted(m: ThroughputMeter, elapsed_ns: u128)
    ensures
        m.rate(elapsed_ns).up_bits == 8 * m.up_bytes,
        m.rate(elapsed_ns).down_bits == 8 * m.down_bytes,
        m.rate(elapsed_ns).up_quarter_tokens == m.in_chars,
        m.rate(elapsed_ns).down_quarter_tokens == m.out_chars,
        m.rate(elapsed_ns).window_ns == elapsed_ns,
        MetricsSnapshot::spec_zero().up_bits == 0 && MetricsSnapshot::spec_zero().down_bits == 0,
        MetricsSnapshot::spec_zero().up_quarter_tokens == 0
            && MetricsSnapshot::spec_zero().down_quarter_tokens == 0,
        MetricsSnapshot::spec_zero().window_ns == 1_000_000_000,
{
}

/// A count is exact until it is full, a counter's growth and its old value make its new one, and a
/// counter that fell behind has not grown.
pub proof fn law_counts(x: nat, current: u64, previous: u64, ms: u64)
    ensures
        x <= u64::MAX ==> saturated(x as int) == x,
        x > u64::MAX ==> saturated(x as int) == u64::MAX,
        current >= previous ==> previous + growth(current, previous) == current,
        current < previous ==> growth(current, previous) == 0,
        nanos(ms) == 1_000_000 * ms,
{
}

} // verus!
