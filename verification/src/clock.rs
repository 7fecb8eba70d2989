//! Injectable time.
use std::sync::atomic::AtomicU64;
use std::sync::Arc;
use std::time::{SystemTime, UNIX_EPOCH};
use vstd::prelude::*;

verus! {

/// Milliseconds since the Unix epoch.
pub type UnixMillis = u64;

/// A source of the current time.
pub trait Clock {
    /// Current time in milliseconds since the Unix epoch.
    fn now_ms(&self) -> UnixMillis;
}

/// The wall clock.
#[derive(Debug, Clone, Default)]
pub struct SystemClock;

/// `SystemTime::now` in whole milliseconds since the Unix epoch, nothing before it. Nothing is claimed
/// of the value: it is the machine's time.
#[verifier::external_body]
fn wall_clock() -> Option<u128> {
    SystemTime::now().duration_since(UNIX_EPOCH).ok().map(|d| d.as_millis())
}

/// A reading of the wall clock as a timestamp: zero before the epoch, and from zero again once the
/// timestamps are used up.
pub fn timestamp(since_epoch: Option<u128>) -> (r: UnixMillis)
    ensures
        r == match since_epoch {
            Some(ms) => ms % 0x1_0000_0000_0000_0000,
            None => 0,
        },
{
    match since_epoch {
        Some(ms) => {
            assert(ms as u64 == ms % 0x1_0000_0000_0000_0000) by (bit_vector);
            ms as u64
        },
        None => 0,
    }
}

impl Clock for SystemClock {
    fn now_ms(&self) -> UnixMillis {
        timestamp(wall_clock())
    }
}

/// A clock that moves only when told to. Clones share one counter, so what a read gives depends on
/// every holder of a clone; the counter is an atomic of the standard library, of whose contents
/// nothing is stated.
#[derive(Debug, Clone, Default)]
pub struct TestClock {
    now: Arc<AtomicU64>,
}

impl TestClock {
    /// A clock reading `start_ms`.
    #[must_use]
    pub fn new(start_ms: UnixMillis) -> Self {
        TestClock { now: Arc::new(AtomicU64::new(start_ms)) }
    }

    /// Move time forward by `delta_ms` and return the new value.
    pub fn advance(&self, delta_ms: u64) -> UnixMillis {
        let before: u64 = self.now.fetch_add(delta_ms, std::sync::atomic::Ordering::SeqCst);
        moved_on(before, delta_ms)
    }

    /// Set the current time.
    pub fn set(&self, now_ms: UnixMillis) {
        self.now.store(now_ms, std::sync::atomic::Ordering::SeqCst);
    }
}

impl Clock for TestClock {
    fn now_ms(&self) -> UnixMillis {
        self.now.load(std::sync::atomic::Ordering::SeqCst)
    }
}

/// What a clock that read `before` reads once it was moved forward: timestamps start from zero again
/// once they are used up, as the counter does.
pub fn moved_on(before: UnixMillis, delta_ms: u64) -> (r: UnixMillis)
    ensures
        r == (before + delta_ms) % 0x1_0000_0000_0000_0000,
{
    before.wrapping_add(delta_ms)
}

} // verus!
