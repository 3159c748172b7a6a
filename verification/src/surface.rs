//! The decisions a layer surface makes about its animations and its
//! reusable buffers.
use vstd::prelude::*;
use crate::animation::Animation;
use crate::damage::MAX_SPARE_FRAMES;

verus! {

/// The largest buffer that is kept for reuse while the surface is idle.
pub const MAX_REUSABLE_BUFFER_BYTES: usize = 4194304;

/// What starting a surface animation leads to.
#[derive(Clone, Copy, Debug, PartialEq, Eq, Structural)]
pub enum SurfaceAnimationStart {
    /// The animation runs from the next frame on.
    Animate,
    /// It had no duration: the target is applied at once.
    Complete,
    /// It had no duration and the surface goes with it.
    Destroy,
}

/// What one frame of a surface animation leads to.
#[derive(Clone, Copy, Debug, PartialEq, Eq, Structural)]
pub enum SurfaceAnimationFrame {
    Idle,
    Animate,
    Complete,
    Destroy,
}

/// An animation without duration completes (or destroys the surface) at
/// once; any other runs.
pub fn animation_start(animation: Animation, destroy_on_complete: bool) -> (r: SurfaceAnimationStart)
    ensures
        r == (if animation.duration_ms == 0 {
            if destroy_on_complete {
                SurfaceAnimationStart::Destroy
            } else {
                SurfaceAnimationStart::Complete
            }
        } else {
            SurfaceAnimationStart::Animate
        }),
{
    if animation.duration_ms == 0 {
        if destroy_on_complete {
            SurfaceAnimationStart::Destroy
        } else {
            SurfaceAnimationStart::Complete
        }
    } else {
        SurfaceAnimationStart::Animate
    }
}

/// The start time of an animation (the first frame's time when it has not
/// started yet) and the time elapsed since, never negative.
pub fn animation_clock(started_at: Option<u32>, time: u32) -> (r: (u32, u32))
    ensures
        r.0 == (match started_at {
            Some(s) => s,
            None => time,
        }),
        r.1 == (if time >= r.0 { time - r.0 } else { 0 }),
{
    let started = match started_at {
        Some(s) => s,
        None => time,
    };
    (started, time.saturating_sub(started))
}

/// What a frame of a running animation leads to: it goes on until it is
/// complete, and then completes or destroys the surface.
pub fn animation_frame_outcome(animation: Animation, elapsed_ms: u32, destroy_on_complete: bool) -> (r:
    SurfaceAnimationFrame)
    ensures
        r == (if elapsed_ms >= animation.duration_ms {
            if destroy_on_complete {
                SurfaceAnimationFrame::Destroy
            } else {
                SurfaceAnimationFrame::Complete
            }
        } else {
            SurfaceAnimationFrame::Animate
        }),
{
    if animation.is_complete(elapsed_ms) {
        if destroy_on_complete {
            SurfaceAnimationFrame::Destroy
        } else {
            SurfaceAnimationFrame::Complete
        }
    } else {
        SurfaceAnimationFrame::Animate
    }
}

/// What becomes of a released buffer.
#[derive(Clone, Copy, Debug, PartialEq, Eq, Structural)]
pub enum SpareFrame {
    /// Kept for reuse.
    Keep,
    /// Dropped: enough are kept already.
    Drop,
    /// Dropped while the surface is idle, releasing its memory.
    Release,
}

/// A released buffer is kept while the surface keeps spares and has room
/// for one more; an idle surface releases it.
pub open spec fn spec_spare_frame_action(retain_spare_frames: bool, spare_count: int) -> SpareFrame {
    if !retain_spare_frames {
        SpareFrame::Release
    } else if spare_count < MAX_SPARE_FRAMES {
        SpareFrame::Keep
    } else {
        SpareFrame::Drop
    }
}

pub fn spare_frame_action(retain_spare_frames: bool, spare_count: usize) -> (r: SpareFrame)
    ensures
        r == spec_spare_frame_action(retain_spare_frames, spare_count as int),
{
    if !retain_spare_frames {
        SpareFrame::Release
    } else if spare_count < MAX_SPARE_FRAMES {
        SpareFrame::Keep
    } else {
        SpareFrame::Drop
    }
}

/// Whether a spare buffer of `bytes` bytes may be looked for: large buffers
/// are only reused while the surface keeps spares.
pub fn may_reuse_spare(bytes: usize, retain_spare_frames: bool) -> (r: bool)
    ensures
        r == (bytes <= MAX_REUSABLE_BUFFER_BYTES || retain_spare_frames),
{
    !(bytes > MAX_REUSABLE_BUFFER_BYTES && !retain_spare_frames)
}

/// A surface never keeps more spare buffers than `MAX_SPARE_FRAMES`.
pub proof fn lemma_spares_stay_bounded(retain_spare_frames: bool, spare_count: int)
    requires
        0 <= spare_count <= MAX_SPARE_FRAMES,
    ensures
        spare_count + (if spec_spare_frame_action(retain_spare_frames, spare_count) == SpareFrame::Keep {
            1int
        } else {
            0
        }) <= MAX_SPARE_FRAMES,
{
}

} // verus!
