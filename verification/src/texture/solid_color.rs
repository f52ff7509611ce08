//! The texture of one colour.
use vstd::prelude::*;
use crate::color::Color;
use crate::scalar::{Scalar, ONE, ZERO};
use crate::texture::Texture;
use crate::vec::Vec3;

verus! {

/// A texture that has the same colour everywhere.
#[derive(Clone, Copy, Debug)]
pub struct SolidColor(pub Color);

impl SolidColor {
    pub fn new(r: Scalar, g: Scalar, b: Scalar) -> (t: SolidColor)
        ensures
            t.0 == Color(Vec3(r, g, b)),
    {
        SolidColor(Color::new(r, g, b))
    }

    pub fn black() -> (t: SolidColor)
        ensures
            t.0 == Color(Vec3(ZERO, ZERO, ZERO)),
    {
        SolidColor(Color::black())
    }

    pub fn white() -> (t: SolidColor)
        ensures
            t.0 == Color(Vec3(ONE, ONE, ONE)),
    {
        SolidColor(Color::white())
    }
}

impl Texture for SolidColor {
    open spec fn color_at(&self, u: Scalar, v: Scalar, point: Vec3) -> Color {
        self.0
    }

    fn value(&self, u: Scalar, v: Scalar, point: &Vec3) -> (c: Color) {
        self.0
    }
}

} // verus!
