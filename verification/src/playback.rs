//! Frame pacing of the player.
use vstd::prelude::*;

verus! {

/// Whether frame `frame` is already late: more time has passed since the
/// start than the end of its slot, `(frame + 1) * frame_micros`
/// microseconds. A late frame is skipped.
pub fn frame_is_late(elapsed_micros: u128, frame: usize, frame_micros: u64) -> (late: bool)
    ensures
        late == (elapsed_micros > (frame + 1) * frame_micros),
{
    assert((frame + 1) * frame_micros <= 0x1_0000_0000_0000_0000 * 0xffff_ffff_ffff_ffff)
        by (nonlinear_arith)
        requires
            0 <= frame + 1 <= 0x1_0000_0000_0000_0000,
            0 <= frame_micros <= 0xffff_ffff_ffff_ffff,
    ;
    let slot_end: u128 = (frame as u128 + 1) * frame_micros as u128;
    elapsed_micros > slot_end
}

} // verus!
