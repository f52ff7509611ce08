//! Materials: what a surface does to the light that reaches it.
use vstd::prelude::*;
use crate::color::Color;
use crate::hit::HitResult;
use crate::scalar::Scalar;
use crate::vec::Vec3;

pub mod dielectric;
pub mod lambertian;
pub mod light;
pub mod metal;

verus! {

/// A scattered ray with its attenuation: where it starts, the direction in
/// which it leaves, its time, and the colour by which the light that comes
/// in along it is multiplied.
#[derive(Clone, Copy, Debug, PartialEq, Eq, Structural)]
pub struct Scattered {
    pub origin: Vec3,
    pub direction: Vec3,
    pub time: Scalar,
    pub attenuation: Color,
}

/// A material scatters or absorbs an incoming ray, and may emit light of its
/// own. `R` is the type of rays. A material that emits nothing gives black
/// for `glow` and `emitted`. Code that is compiled without being verified
/// sees `glow` as a plain method, and gives it the body of `emitted`.
pub trait Material<R>: Sized {
    /// The light that the material emits at surface coordinates (`u`, `v`)
    /// and at `point` in space: the model of [`Material::emitted`].
    spec fn glow(&self, u: Scalar, v: Scalar, point: Vec3) -> Color;

    /// Scatters `ray`, which met the surface at `hit`: the outgoing ray and
    /// its attenuation, or `None` where the ray is absorbed. The outcome may
    /// depend on chance.
    fn scatter(&self, ray: &R, hit: &HitResult<Self>) -> Option<(R, Color)>;

    /// The light that the material emits at surface coordinates (`u`, `v`)
    /// and at `point` in space.
    fn emitted(&self, u: Scalar, v: Scalar, point: &Vec3) -> (c: Color)
        ensures
            c == self.glow(u, v, *point),
    ;
}

} // verus!
