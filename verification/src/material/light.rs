//! The emitter: a surface that gives off light and reflects none.
use vstd::prelude::*;
use crate::color::Color;
use crate::hit::HitResult;
use crate::material::Material;
use crate::scalar::Scalar;
use crate::texture::solid_color::SolidColor;
use crate::texture::Texture;
use crate::vec::Vec3;

verus! {

/// A diffuse light. It absorbs every ray and emits what its texture says.
pub struct DiffuseLight<X> {
    pub emission: X,
}

impl DiffuseLight<SolidColor> {
    /// The light of one colour.
    pub fn colored(color: Color) -> (m: Self)
        ensures
            m.emission.0 == color,
    {
        DiffuseLight { emission: SolidColor(color) }
    }
}

impl<R, X: Texture> Material<R> for DiffuseLight<X> {
    open spec fn glow(&self, u: Scalar, v: Scalar, point: Vec3) -> Color {
        self.emission.color_at(u, v, point)
    }

    /// Absorbs the ray.
    fn scatter(&self, ray: &R, hit: &HitResult<Self>) -> (r: Option<(R, Color)>)
        ensures
            r is None,
    {
        None
    }

    fn emitted(&self, u: Scalar, v: Scalar, point: &Vec3) -> (c: Color) {
        self.emission.value(u, v, point)
    }
}

} // verus!
