//! The count of simulated frames.

use vstd::prelude::*;

verus! {

/// The number of frames simulated so far. It is part of every snapshot, so
/// that a state and its frame are always saved and restored together.
#[derive(Clone, Copy, Debug, PartialEq, Eq, Structural, Hash)]
pub struct FrameCount {
    pub frame: u32,
}

impl Default for FrameCount {
    fn default() -> (count: FrameCount)
        ensures
            count.frame == 0,
    {
        FrameCount { frame: 0 }
    }
}

/// Counts one simulated frame.
pub fn increase_frame_system(frame_count: &mut FrameCount)
    requires
        old(frame_count).frame < u32::MAX,
    ensures
        final(frame_count).frame == old(frame_count).frame + 1,
{
    frame_count.frame += 1;
}

} // verus!
