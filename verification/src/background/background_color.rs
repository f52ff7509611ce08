//! The background of one colour.
use vstd::prelude::*;
use crate::background::Background;
use crate::color::Color;
use crate::scalar::{Scalar, ONE, ZERO};
use crate::vec::Vec3;

verus! {

/// A background that sends the same radiance along every ray.
#[derive(Clone, Copy, Debug)]
pub struct BackgroundColor(pub Color);

impl BackgroundColor {
    pub fn new(r: Scalar, g: Scalar, b: Scalar) -> (t: BackgroundColor)
        ensures
            t.0 == Color(Vec3(r, g, b)),
    {
        BackgroundColor(Color::new(r, g, b))
    }

    pub fn black() -> (t: BackgroundColor)
        ensures
            t.0 == Color(Vec3(ZERO, ZERO, ZERO)),
    {
        BackgroundColor(Color::black())
    }

    pub fn white() -> (t: BackgroundColor)
        ensures
            t.0 == Color(Vec3(ONE, ONE, ONE)),
    {
        BackgroundColor(Color::white())
    }
}

impl Default for BackgroundColor {
    /// The black background.
    fn default() -> (t: BackgroundColor)
        ensures
            t.0 == Color(Vec3(ZERO, ZERO, ZERO)),
    {
        BackgroundColor(Color::black())
    }
}

impl<R> Background<R> for BackgroundColor {
    open spec fn radiance(&self, ray: &R) -> Color {
        self.0
    }

    fn background(&self, ray: &R) -> (c: Color) {
        self.0
    }
}

} // verus!
