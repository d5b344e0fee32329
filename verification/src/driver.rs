//! Stuck-core detection for the driver loop.
//!
//! The driver reads one trace line per cycle. A line whose two slots are
//! both bubbles means the core retired nothing that cycle; too many such
//! lines in a row mean the core has stalled, and there is no recovery path.

use vstd::prelude::*;

verus! {

/// Consecutive all-bubble lines that make the core count as stuck.
pub const BUBBLE_LIMIT: u64 = 100;

/// Counts consecutive all-bubble trace lines; any real commit resets it.
pub struct StallDetector {
    pub count: u64,
}

impl StallDetector {
    /// A fresh detector, at zero.
    pub fn new() -> (r: StallDetector)
        ensures
            r.count == 0,
    {
        StallDetector { count: 0 }
    }

    /// Note one trace line. `any_commit` is whether at least one of its two
    /// slots carried a real commit record. Returns whether the core now
    /// counts as stuck: exactly when this line is the [`BUBBLE_LIMIT`]-th
    /// consecutive all-bubble one.
    pub fn note_line(&mut self, any_commit: bool) -> (stuck: bool)
        requires
            old(self).count < BUBBLE_LIMIT,
        ensures
            any_commit ==> final(self).count == 0 && !stuck,
            !any_commit ==> final(self).count == old(self).count + 1,
            !any_commit ==> stuck == (final(self).count == BUBBLE_LIMIT),
    {
        if any_commit {
            self.count = 0;
            false
        } else {
            self.count = self.count + 1;
            self.count == BUBBLE_LIMIT
        }
    }
}

} // verus!
