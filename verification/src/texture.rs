//! Textures: colour as a function of the place on a surface.
use vstd::prelude::*;
use crate::color::Color;
use crate::scalar::Scalar;
use crate::vec::Vec3;

pub mod checker;
pub mod solid_color;

verus! {

/// A texture gives a colour to every surface point. It answers the same
/// question in the same way every time. Code that is compiled without being
/// verified sees `color_at` as a plain method, and gives it the body of
/// `value`.
pub trait Texture {
    /// The colour at surface coordinates (`u`, `v`) and at `point` in space:
    /// the model of [`Texture::value`].
    spec fn color_at(&self, u: Scalar, v: Scalar, point: Vec3) -> Color;

    /// The colour at surface coordinates (`u`, `v`) and at `point` in space.
    fn value(&self, u: Scalar, v: Scalar, point: &Vec3) -> (c: Color)
        ensures
            c == self.color_at(u, v, *point),
    ;
}

} // verus!
