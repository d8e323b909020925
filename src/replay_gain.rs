//! The decisions of the clip-prevention step.
use vstd::prelude::*;

verus! {

/// What applying the true-peak ceiling to a gain decided.
#[derive(Debug, PartialEq, Eq, Clone, Copy)]
pub struct ClipOutcome {
    /// The gain is kept and the peak after it exceeds the ceiling.
    pub will_clip: bool,
    /// The gain was lowered so that the peak after it meets the ceiling.
    pub clip_prevented: bool,
}

/// Decides the outcome of the clip step from whether the peak after the
/// gain exceeds the ceiling and whether clipping is to be prevented. The
/// gain is lowered exactly when `clip_prevented` is set.
pub fn clip_outcome(exceeds: bool, prevent: bool) -> (r: ClipOutcome)
    ensures
        r.will_clip == (exceeds && !prevent),
        r.clip_prevented == (exceeds && prevent),
        !(r.will_clip && r.clip_prevented),
{
    if exceeds {
        if prevent {
            ClipOutcome { will_clip: false, clip_prevented: true }
        } else {
            ClipOutcome { will_clip: true, clip_prevented: false }
        }
    } else {
        ClipOutcome { will_clip: false, clip_prevented: false }
    }
}

} // verus!
