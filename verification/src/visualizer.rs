//! Frame pacing of the render loop: how long a frame may take at a given
//! frame rate, and how long to sleep after a frame that finished early.
use vstd::prelude::*;

verus! {

pub const NANOS_PER_SECOND: u32 = 1_000_000_000;

/// The length of one frame in nanoseconds at `fps` frames per second.
pub fn frame_duration_nanos(fps: u32) -> (nanos: u32)
    requires
        fps > 0,
    ensures
        nanos == NANOS_PER_SECOND / fps,
        nanos as int * fps as int <= NANOS_PER_SECOND,
{
    let nanos: u32 = NANOS_PER_SECOND / fps;
    assert(nanos as int * fps as int <= NANOS_PER_SECOND) by (nonlinear_arith)
        requires
            nanos == NANOS_PER_SECOND / fps,
            fps > 0,
    ;
    nanos
}

/// How long to sleep after a frame that took `elapsed_nanos` when a frame
/// may take `frame_nanos`: the rest of the frame, or nothing if it overran.
pub fn sleep_nanos(frame_nanos: u128, elapsed_nanos: u128) -> (sleep: u128)
    ensures
        elapsed_nanos < frame_nanos ==> sleep == frame_nanos - elapsed_nanos,
        elapsed_nanos >= frame_nanos ==> sleep == 0,
        elapsed_nanos < frame_nanos ==> elapsed_nanos + sleep == frame_nanos,
{
    if elapsed_nanos < frame_nanos {
        frame_nanos - elapsed_nanos
    } else {
        0
    }
}

} // verus!
