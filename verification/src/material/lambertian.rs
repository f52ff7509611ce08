//! The diffuse surface.
use vstd::prelude::*;
use crate::color::Color;
use crate::hit::HitResult;
use crate::material::Scattered;
use crate::scalar::Scalar;
use crate::texture::solid_color::SolidColor;
use crate::texture::Texture;
use crate::vec::Vec3;

verus! {

/// A diffuse surface. It scatters every ray, into a direction near the
/// surface normal, and attenuates it by the colour of its texture at the
/// hit.
pub struct Lambertian<X> {
    pub texture: X,
}

impl Lambertian<SolidColor> {
    /// The diffuse surface of one colour.
    pub fn colored(color: Color) -> (m: Self)
        ensures
            m.texture.0 == color,
    {
        Lambertian { texture: SolidColor(color) }
    }
}

impl<X: Texture> Lambertian<X> {
    /// The ray that the surface scatters where it is hit at `hit` by a ray
    /// of time `time`. `sum` is the surface normal plus a random unit
    /// vector. The scattered ray starts at the hit point and keeps the time.
    /// It leaves along `sum`, or along the normal itself where `sum` is zero
    /// within the tolerance. It is attenuated by the colour of the texture
    /// at the hit. A diffuse surface absorbs no ray.
    pub fn scatter_along<M>(&self, hit: &HitResult<M>, time: Scalar, sum: Vec3) -> (r: Scattered)
        ensures
            r == (Scattered {
                origin: hit.point,
                direction: if sum.negligible() {
                    hit.normal
                } else {
                    sum
                },
                time,
                attenuation: self.texture.color_at(hit.u, hit.v, hit.point),
            }),
    {
        let direction = if sum.near_zero() {
            hit.normal
        } else {
            sum
        };
        Scattered {
            origin: hit.point,
            direction,
            time,
            attenuation: self.texture.value(hit.u, hit.v, &hit.point),
        }
    }
}

} // verus!
