//! Colours.
use vstd::prelude::*;
use crate::scalar::{limited, Scalar, ONE, ZERO};
use crate::vec::Vec3;

verus! {

/// A colour: its red, green and blue channels, each held as a scalar. A
/// channel of zero is dark and one of one is fully lit; radiance may lie
/// outside that range until it is clamped.
#[derive(Clone, Copy, Debug, PartialEq, Eq, Structural)]
pub struct Color(pub Vec3);

impl Color {
    /// The colour with every channel limited to the range from zero to one.
    pub open spec fn limited(self) -> Color {
        Color(
            Vec3(
                limited(self.0.0, ZERO, ONE),
                limited(self.0.1, ZERO, ONE),
                limited(self.0.2, ZERO, ONE),
            ),
        )
    }

    /// Whether every channel lies in the range from zero to one.
    pub open spec fn in_gamut(self) -> bool {
        &&& ZERO <= self.0.0 <= ONE
        &&& ZERO <= self.0.1 <= ONE
        &&& ZERO <= self.0.2 <= ONE
    }

    pub fn new(r: Scalar, g: Scalar, b: Scalar) -> (c: Color)
        ensures
            c == Color(Vec3(r, g, b)),
    {
        Color(Vec3(r, g, b))
    }

    pub fn black() -> (c: Color)
        ensures
            c == Color(Vec3(ZERO, ZERO, ZERO)),
    {
        Color::new(ZERO, ZERO, ZERO)
    }

    pub fn white() -> (c: Color)
        ensures
            c == Color(Vec3(ONE, ONE, ONE)),
    {
        Color::new(ONE, ONE, ONE)
    }

    pub fn red() -> (c: Color)
        ensures
            c == Color(Vec3(ONE, ZERO, ZERO)),
    {
        Color::new(ONE, ZERO, ZERO)
    }

    pub fn green() -> (c: Color)
        ensures
            c == Color(Vec3(ZERO, ONE, ZERO)),
    {
        Color::new(ZERO, ONE, ZERO)
    }

    pub fn blue() -> (c: Color)
        ensures
            c == Color(Vec3(ZERO, ZERO, ONE)),
    {
        Color::new(ZERO, ZERO, ONE)
    }

    /// The red channel.
    pub fn r(&self) -> (k: Scalar)
        ensures
            k == self.0.0,
    {
        self.0.0
    }

    /// The green channel.
    pub fn g(&self) -> (k: Scalar)
        ensures
            k == self.0.1,
    {
        self.0.1
    }

    /// The blue channel.
    pub fn b(&self) -> (k: Scalar)
        ensures
            k == self.0.2,
    {
        self.0.2
    }

    /// The colour with every channel limited to the range from zero to one.
    pub fn clamped(&self) -> (c: Color)
        ensures
            c == self.limited(),
            c.in_gamut(),
    {
        Color(
            Vec3(
                crate::scalar::clamp(self.0.0, ZERO, ONE),
                crate::scalar::clamp(self.0.1, ZERO, ONE),
                crate::scalar::clamp(self.0.2, ZERO, ONE),
            ),
        )
    }

    /// Limits every channel to the range from zero to one.
    pub fn clamp(&mut self)
        ensures
            *final(self) == old(self).limited(),
            final(self).in_gamut(),
    {
        self.0.0 = crate::scalar::clamp(self.0.0, ZERO, ONE);
        self.0.1 = crate::scalar::clamp(self.0.1, ZERO, ONE);
        self.0.2 = crate::scalar::clamp(self.0.2, ZERO, ONE);
    }

    /// Clamping a clamped colour changes nothing, and a clamped colour lies
    /// in the range from zero to one on every channel.
    pub proof fn lemma_clamp_idempotent(self)
        ensures
            self.limited().limited() == self.limited(),
            self.limited().in_gamut(),
            self.in_gamut() <==> self.limited() == self,
    {
    }
}

impl Default for Color {
    /// Black.
    fn default() -> (c: Color)
        ensures
            c == Color(Vec3(ZERO, ZERO, ZERO)),
    {
        Color::black()
    }
}

} // verus!
