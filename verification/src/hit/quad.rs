//! The decisions of the ray-quad test.
use vstd::prelude::*;
use crate::math::interval::Interval;
use crate::scalar::{magnitude, Scalar, EPSILON, ONE, ZERO};

verus! {

/// Whether a ray hits a quad. `denominator` is the dot product of the
/// quad's normal with the ray's direction, `t` the ray parameter at which
/// the ray crosses the quad's plane, and (`u`, `v`) the crossing point in the
/// frame of the quad's edges. The ray hits where it is not parallel to the
/// plane within the tolerance, crosses it inside the window, and crosses it
/// between the edges: with both coordinates from zero to one.
pub open spec fn admitted(
    t_interval: Interval,
    denominator: Scalar,
    t: Scalar,
    u: Scalar,
    v: Scalar,
) -> bool {
    &&& magnitude(denominator) > EPSILON
    &&& t_interval.holds(t)
    &&& ZERO <= u <= ONE
    &&& ZERO <= v <= ONE
}

/// Whether a ray hits a quad; see [`admitted`].
pub fn admits(t_interval: &Interval, denominator: Scalar, t: Scalar, u: Scalar, v: Scalar) -> (r:
    bool)
    ensures
        r == admitted(*t_interval, denominator, t, u, v),
{
    crate::scalar::abs(denominator) > EPSILON && t_interval.contains(t) && ZERO <= u && u <= ONE
        && ZERO <= v && v <= ONE
}

/// A ray that crosses the plane of a quad outside of its edges does not hit
/// it, wherever and in whatever window it crosses.
pub proof fn lemma_outside_is_no_hit(
    t_interval: Interval,
    denominator: Scalar,
    t: Scalar,
    u: Scalar,
    v: Scalar,
)
    requires
        u < ZERO || u > ONE || v < ZERO || v > ONE,
    ensures
        !admitted(t_interval, denominator, t, u, v),
{
}

/// The test of a quad is that of a closest-hit search. A ray that does not
/// hit in a window hits in no window inside it, and a ray that hits in a
/// window hits in every window inside that holds the crossing, and in no
/// other.
pub proof fn lemma_hit_searches(
    asked: Interval,
    w: Interval,
    denominator: Scalar,
    t: Scalar,
    u: Scalar,
    v: Scalar,
)
    requires
        asked.covers(w),
    ensures
        admitted(w, denominator, t, u, v) == (admitted(asked, denominator, t, u, v) && w.holds(t)),
{
}

} // verus!
