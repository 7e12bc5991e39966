//! Stereo sample frames.

use vstd::prelude::*;
use crate::fixed::{scalar_ok, spec_clamp, spec_mul_scale, add_clamped, mul_scale};

verus! {

/// One stereo sample pair: the engine's output for one processing step.
/// Both channels are fixed-point scalars kept inside the scalar range, so
/// sums and products of frames never overflow.
#[derive(Clone, Copy, Debug, PartialEq, Eq, Structural)]
pub struct Frame {
    pub left: i64,
    pub right: i64,
}

pub open spec fn frame_ok(f: Frame) -> bool {
    scalar_ok(f.left as int) && scalar_ok(f.right as int)
}

/// Commutative frame accumulation: channel-wise clamped addition.
pub open spec fn spec_frame_add(a: Frame, b: Frame) -> Frame {
    Frame { left: spec_clamp(a.left + b.left) as i64, right: spec_clamp(a.right + b.right) as i64 }
}

/// Channel-wise fixed-point scaling.
pub open spec fn spec_frame_scale(f: Frame, s: int) -> Frame {
    Frame {
        left: spec_mul_scale(f.left as int, s) as i64,
        right: spec_mul_scale(f.right as int, s) as i64,
    }
}

impl Frame {
    pub fn new(left: i64, right: i64) -> (r: Frame)
        requires
            scalar_ok(left as int),
            scalar_ok(right as int),
        ensures
            r == (Frame { left, right }),
            frame_ok(r),
    {
        Frame { left, right }
    }

    /// The same sample on both channels.
    pub fn from_mono(v: i64) -> (r: Frame)
        requires
            scalar_ok(v as int),
        ensures
            r == (Frame { left: v, right: v }),
            frame_ok(r),
    {
        Frame { left: v, right: v }
    }

    /// Silence: the accumulator reset value.
    pub fn zero() -> (r: Frame)
        ensures
            r == (Frame { left: 0i64, right: 0i64 }),
            frame_ok(r),
    {
        Frame { left: 0, right: 0 }
    }

    pub fn add(self, other: Frame) -> (r: Frame)
        requires
            frame_ok(self),
            frame_ok(other),
        ensures
            r == spec_frame_add(self, other),
            frame_ok(r),
    {
        Frame {
            left: add_clamped(self.left, other.left),
            right: add_clamped(self.right, other.right),
        }
    }

    /// Scale both channels by the fixed-point factor `s`.
    pub fn scale(self, s: i64) -> (r: Frame)
        requires
            frame_ok(self),
            scalar_ok(s as int),
        ensures
            r == spec_frame_scale(self, s as int),
            frame_ok(r),
    {
        Frame { left: mul_scale(self.left, s), right: mul_scale(self.right, s) }
    }
}

/// Frame accumulation is commutative, so the order in which inputs arrive at
/// a track within one step does not change its accumulator.
pub proof fn lemma_frame_add_commutes(a: Frame, b: Frame)
    ensures
        spec_frame_add(a, b) == spec_frame_add(b, a),
{
}

} // verus!
