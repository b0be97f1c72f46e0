//! Unit vectors in fixed point: the cosine and sine of an angle.

use vstd::prelude::*;
use crate::fixed::ONE;

verus! {

/// How far the squared length of a direction may lie from 1.0 squared: it
/// covers a cosine and a sine that were each rounded or truncated to 16
/// fractional bits.
pub const UNIT_TOLERANCE: i64 = 262144;

/// Whether `(dx, dy)` is a unit vector up to rounding.
pub open spec fn is_unit(dx: int, dy: int) -> bool {
    &&& -65536 <= dx <= 65536
    &&& -65536 <= dy <= 65536
    &&& 65536 * 65536 - 262144 <= dx * dx + dy * dy <= 65536 * 65536 + 262144
}

/// A direction in the plane: the cosine and sine of an angle, in fixed point.
#[derive(Clone, Copy, Debug)]
pub struct Direction {
    dx: i32,
    dy: i32,
}

impl Direction {
    /// The cosine of the angle, in fixed point.
    pub closed spec fn spec_dx(&self) -> i32 {
        self.dx
    }

    /// The sine of the angle, in fixed point.
    pub closed spec fn spec_dy(&self) -> i32 {
        self.dy
    }

    /// The components form a unit vector.
    #[verifier::type_invariant]
    pub open spec fn wf(self) -> bool {
        is_unit(self.dx() as int, self.dy() as int)
    }

    /// The direction with cosine `cos` and sine `sin`, where these form a
    /// unit vector up to rounding.
    pub fn new(cos: i32, sin: i32) -> (res: Option<Direction>)
        ensures
            res is Some <==> is_unit(cos as int, sin as int),
            res matches Some(d) ==> d.dx() == cos && d.dy() == sin && d.wf(),
    {
        if cos < -ONE || cos > ONE || sin < -ONE || sin > ONE {
            return None;
        }
        let c: i64 = cos as i64;
        let s: i64 = sin as i64;
        assert(0 <= c * c <= 65536 * 65536 && 0 <= s * s <= 65536 * 65536) by (nonlinear_arith)
            requires
                -65536 <= c <= 65536,
                -65536 <= s <= 65536,
        ;
        let len2: i64 = c * c + s * s;
        let unit2: i64 = 65536 * 65536;
        if len2 < unit2 - UNIT_TOLERANCE || len2 > unit2 + UNIT_TOLERANCE {
            return None;
        }
        Some(Direction { dx: cos, dy: sin })
    }

    /// The cosine of the angle, in fixed point.
    #[verifier::when_used_as_spec(spec_dx)]
    pub fn dx(&self) -> (c: i32)
        ensures
            c == self.dx(),
            -65536 <= c <= 65536,
    {
        proof {
            use_type_invariant(self);
        }
        self.dx
    }

    /// The sine of the angle, in fixed point.
    #[verifier::when_used_as_spec(spec_dy)]
    pub fn dy(&self) -> (s: i32)
        ensures
            s == self.dy(),
            -65536 <= s <= 65536,
    {
        proof {
            use_type_invariant(self);
        }
        self.dy
    }
}

} // verus!
