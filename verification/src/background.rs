//! What a ray sees that leaves the scene.
use vstd::prelude::*;
use crate::color::Color;

pub mod background_color;

verus! {

/// The radiance that arrives along rays that hit nothing. A background
/// answers the same ray in the same way every time. Code that is compiled
/// without being verified sees `radiance` as a plain method, and gives it
/// the body of `background`.
pub trait Background<R> {
    /// The radiance that arrives along `ray`: the model of
    /// [`Background::background`].
    spec fn radiance(&self, ray: &R) -> Color;

    /// The radiance that arrives along `ray`.
    fn background(&self, ray: &R) -> (c: Color)
        ensures
            c == self.radiance(ray),
    ;
}

} // verus!
