//! The transparent surface.
use vstd::prelude::*;
use crate::color::Color;
use crate::hit::HitResult;
use crate::material::Scattered;
use crate::scalar::{Scalar, ONE, ZERO};
use crate::vec::Vec3;

verus! {

/// A transparent surface, such as glass or water. It absorbs nothing: a ray
/// is either reflected or refracted.
pub struct Dielectric {
    pub refraction_index: Scalar,
}

/// Whether a ray is reflected; see [`Dielectric::reflects`].
pub open spec fn reflected(bend: Scalar, reflectance: Scalar, draw: Scalar) -> bool {
    bend > ONE || reflectance > draw
}

/// A ray that strikes the surface at a right angle, between media of the
/// same refraction index, is never reflected: the sine of its angle is zero,
/// and so are the bend and the reflectance, which no draw lies below.
pub proof fn lemma_straight_through(draw: Scalar)
    requires
        draw >= ZERO,
    ensures
        !reflected(ZERO, ZERO, draw),
{
}

impl Dielectric {
    /// The attenuation of every ray that the surface passes on, reflected
    /// or refracted: white, for it absorbs nothing.
    pub fn attenuation() -> (c: Color)
        ensures
            c == Color(Vec3(ONE, ONE, ONE)),
    {
        Color::white()
    }

    /// The ray that the surface passes on where it is hit at `hit` by a ray
    /// of time `time`. `reflection` and `refraction` are the directions of
    /// the reflected and of the refracted ray; for `bend`, `reflectance` and
    /// `draw` see [`Dielectric::reflects`]. The ray starts at the hit point,
    /// keeps the time, leaves along `reflection` where it is reflected and
    /// along `refraction` where it is not, and is attenuated by white. A
    /// transparent surface absorbs no ray.
    pub fn scatter_along<M>(
        hit: &HitResult<M>,
        time: Scalar,
        reflection: Vec3,
        refraction: Vec3,
        bend: Scalar,
        reflectance: Scalar,
        draw: Scalar,
    ) -> (r: Scattered)
        ensures
            r == (Scattered {
                origin: hit.point,
                direction: if reflected(bend, reflectance, draw) {
                    reflection
                } else {
                    refraction
                },
                time,
                attenuation: Color(Vec3(ONE, ONE, ONE)),
            }),
    {
        let direction = if Dielectric::reflects(bend, reflectance, draw) {
            reflection
        } else {
            refraction
        };
        Scattered { origin: hit.point, direction, time, attenuation: Dielectric::attenuation() }
    }

    /// The ratio of the refraction indices that a ray passes between:
    /// `inverse`, which is one over the material's index, where the ray
    /// enters through the front face, and the material's index where it
    /// leaves.
    pub fn refraction_ratio(&self, inverse: Scalar, front_face: bool) -> (r: Scalar)
        ensures
            r == if front_face {
                inverse
            } else {
                self.refraction_index
            },
    {
        if front_face {
            inverse
        } else {
            self.refraction_index
        }
    }

    /// Whether the ray is reflected. `bend` is the refraction ratio times
    /// the sine of the angle of incidence; above one, no refracted ray
    /// exists. `reflectance` is the share of the light that the surface
    /// reflects at this angle, and `draw` a uniform random number from zero
    /// to one. The ray is reflected where it cannot be refracted, or where
    /// the reflectance is above the draw.
    pub fn reflects(bend: Scalar, reflectance: Scalar, draw: Scalar) -> (r: bool)
        ensures
            r == reflected(bend, reflectance, draw),
    {
        bend > ONE || reflectance > draw
    }
}

} // verus!
