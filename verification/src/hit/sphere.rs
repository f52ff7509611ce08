//! The decisions of the ray-sphere test.
use vstd::prelude::*;
use crate::math::interval::Interval;
use crate::scalar::{Scalar, ZERO};

verus! {

/// The ray parameter at which a ray hits a sphere, given the roots of their
/// quadratic: nothing where the discriminant is below zero; else the near
/// root where it lies in the window; else the far root where that does; else
/// nothing.
pub open spec fn chosen_root(
    t_interval: Interval,
    discriminant: Scalar,
    near: Scalar,
    far: Scalar,
) -> Option<Scalar> {
    if discriminant < ZERO {
        None
    } else if t_interval.holds(near) {
        Some(near)
    } else if t_interval.holds(far) {
        Some(far)
    } else {
        None
    }
}

/// The ray parameter at which a ray hits a sphere; see [`chosen_root`].
/// `discriminant` is that of the quadratic of ray and sphere, and `near` and
/// `far` are its roots.
pub fn first_root(t_interval: &Interval, discriminant: Scalar, near: Scalar, far: Scalar) -> (r:
    Option<Scalar>)
    ensures
        r == chosen_root(*t_interval, discriminant, near, far),
        r matches Some(t) ==> t_interval.holds(t),
{
    if discriminant < ZERO {
        None
    } else if t_interval.contains(near) {
        Some(near)
    } else if t_interval.contains(far) {
        Some(far)
    } else {
        None
    }
}

/// The choice of a root is that of a closest-hit search. Where no root is
/// chosen in a window, none is chosen in any window inside it. Where a root
/// is chosen, the same root is chosen in every window inside that does not
/// start behind it, or none where the window ends at or before it. This
/// holds as long as the near root does not lie behind the far one.
pub proof fn lemma_root_searches(
    asked: Interval,
    w: Interval,
    discriminant: Scalar,
    near: Scalar,
    far: Scalar,
)
    requires
        near <= far,
        asked.covers(w),
    ensures
        match chosen_root(asked, discriminant, near, far) {
            None => chosen_root(w, discriminant, near, far) is None,
            Some(t) => asked.holds(t) && (w.start <= t ==> chosen_root(w, discriminant, near, far)
                == if t < w.end {
                Some(t)
            } else {
                None
            }),
        },
{
}

} // verus!
