//! The checker texture: two textures that alternate over a lattice of cubes.
use vstd::prelude::*;
use crate::color::Color;
use crate::scalar::Scalar;
use crate::texture::solid_color::SolidColor;
use crate::texture::Texture;
use crate::vec::Vec3;

verus! {

/// Two textures that alternate from each cube of a lattice to the next.
pub struct Checker<E, O> {
    pub even: E,
    pub odd: O,
}

/// Whether the cube with lattice coordinates (`x`, `y`, `z`) is an even one:
/// whether the sum of its coordinates is even.
pub open spec fn even_cell(x: i32, y: i32, z: i32) -> bool {
    (x + y + z) % 2 == 0
}

impl<E: Texture, O: Texture> Checker<E, O> {
    pub fn new(even: E, odd: O) -> (t: Self)
        ensures
            t.even == even,
            t.odd == odd,
    {
        Checker { even, odd }
    }

    /// Whether the cube with lattice coordinates (`x`, `y`, `z`) shows the
    /// even texture.
    pub fn is_even(x: i32, y: i32, z: i32) -> (r: bool)
        ensures
            r == even_cell(x, y, z),
    {
        let sum: i64 = x as i64 + y as i64 + z as i64;
        sum % 2 == 0
    }

    /// The colour at a surface point that lies in the cube with lattice
    /// coordinates `cell`: that of the even texture in an even cube, that of
    /// the odd texture in an odd one.
    pub fn value_in(&self, cell: (i32, i32, i32), u: Scalar, v: Scalar, point: &Vec3) -> (c: Color)
        ensures
            c == if even_cell(cell.0, cell.1, cell.2) {
                self.even.color_at(u, v, *point)
            } else {
                self.odd.color_at(u, v, *point)
            },
    {
        if Self::is_even(cell.0, cell.1, cell.2) {
            self.even.value(u, v, point)
        } else {
            self.odd.value(u, v, point)
        }
    }
}

impl Checker<SolidColor, SolidColor> {
    /// The checker of two colours.
    pub fn new_with_colors(even: Color, odd: Color) -> (t: Self)
        ensures
            t.even.0 == even,
            t.odd.0 == odd,
    {
        Checker { even: SolidColor(even), odd: SolidColor(odd) }
    }
}

} // verus!
