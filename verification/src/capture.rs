//! Screen-capture vocabulary: what can be captured, and at which quality.
use vstd::prelude::*;

verus! {

/// What to capture.
#[derive(Debug, PartialEq, Eq)]
pub enum CaptureSource {
    /// A whole display, by id.
    Display(String),
}

/// The kind of an enumerated source.
#[derive(Debug, Clone, Copy, PartialEq, Eq, Structural)]
pub enum SourceKind {
    /// A display or monitor.
    Display,
}

/// A selectable capture source.
#[derive(Debug, PartialEq, Eq)]
pub struct SourceInfo {
    /// Stable id used in [`CaptureSource`].
    pub id: String,
    /// Label for the picker.
    pub label: String,
    /// What kind of source this is.
    pub kind: SourceKind,
}

/// Capture quality: rate, resolution ceiling and encode quality.
#[derive(Debug, Clone, Copy, PartialEq, Eq, Structural)]
pub struct CaptureQuality {
    /// Frames per second.
    pub fps: u32,
    /// Resolution ceiling (longest edge, pixels).
    pub max_width: u32,
    /// Encode quality, 1 to 100.
    pub quality: u8,
}

/// The number in `lo ..= hi` nearest to `x`.
pub open spec fn nearest_in(x: int, lo: int, hi: int) -> int {
    if x < lo {
        lo
    } else if x > hi {
        hi
    } else {
        x
    }
}

/// The larger of two numbers.
pub open spec fn larger(a: int, b: int) -> int {
    if a >= b {
        a
    } else {
        b
    }
}

/// The number in `lo ..= hi` nearest to `x`.
pub fn clamp_u32(x: u32, lo: u32, hi: u32) -> (r: u32)
    requires
        lo <= hi,
    ensures
        r == nearest_in(x as int, lo as int, hi as int),
{
    if x < lo {
        lo
    } else if x > hi {
        hi
    } else {
        x
    }
}

impl CaptureQuality {
    /// Every field is inside its range and below the ceilings.
    pub open spec fn within(self, fps_ceiling: u32, width_ceiling: u32) -> bool {
        &&& 1 <= self.fps <= larger(fps_ceiling as int, 1)
        &&& 1 <= self.max_width <= larger(width_ceiling as int, 1)
        &&& 1 <= self.quality <= 100
    }

    /// Each field moved to the nearest value in its range and below the given ceilings. A ceiling
    /// of zero counts as one.
    #[must_use]
    pub fn clamped(self, fps_ceiling: u32, width_ceiling: u32) -> (r: Self)
        ensures
            r.fps == nearest_in(self.fps as int, 1, larger(fps_ceiling as int, 1)),
            r.max_width == nearest_in(self.max_width as int, 1, larger(width_ceiling as int, 1)),
            r.quality == nearest_in(self.quality as int, 1, 100),
            r.within(fps_ceiling, width_ceiling),
            self.within(fps_ceiling, width_ceiling) ==> r == self,
    {
        let top_fps: u32 = if fps_ceiling >= 1 {
            fps_ceiling
        } else {
            1
        };
        let top_width: u32 = if width_ceiling >= 1 {
            width_ceiling
        } else {
            1
        };
        let quality: u8 = if self.quality < 1 {
            1
        } else if self.quality > 100 {
            100
        } else {
            self.quality
        };
        CaptureQuality {
            fps: clamp_u32(self.fps, 1, top_fps),
            max_width: clamp_u32(self.max_width, 1, top_width),
            quality,
        }
    }
}

/// What is clamped lies in the range and is no farther from the value than anything else in it; and of
/// two numbers the larger is one of them and below neither.
pub proof fn law_nearest_and_larger(x: int, lo: int, hi: int, y: int)
    requires
        lo <= hi,
    ensures
        lo <= nearest_in(x, lo, hi) <= hi,
        lo <= x <= hi ==> nearest_in(x, lo, hi) == x,
        lo <= y <= hi ==> nearest_in(x, lo, hi) - x <= larger(y - x, x - y),
        lo <= y <= hi ==> x - nearest_in(x, lo, hi) <= larger(y - x, x - y),
        larger(x, y) >= x,
        larger(x, y) >= y,
        larger(x, y) == x || larger(x, y) == y,
{
}

/// A quality within its ceilings has a rate and a width from one to the ceiling, where a ceiling of zero
/// counts as one, and an encode quality from one to a hundred.
pub proof fn law_quality_within(q: CaptureQuality, fps_ceiling: u32, width_ceiling: u32)
    ensures
        fps_ceiling > 0 && width_ceiling > 0 ==> q.within(fps_ceiling, width_ceiling) == (q.fps >= 1
            && q.fps <= fps_ceiling && q.max_width >= 1 && q.max_width <= width_ceiling && q.quality
            >= 1 && q.quality <= 100),
        q.within(0, width_ceiling) == q.within(1, width_ceiling),
        q.within(fps_ceiling, 0) == q.within(fps_ceiling, 1),
{
}

} // verus!
