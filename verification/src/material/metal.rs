//! The metal surface.
use vstd::prelude::*;
use crate::color::Color;
use crate::hit::HitResult;
use crate::material::Scattered;
use crate::scalar::{Scalar, ZERO};
use crate::vec::Vec3;

verus! {

/// The number of perturbed directions that a fuzzy metal tries before it
/// gives the ray up as absorbed.
pub const MAX_TRIES: u32 = 64;

/// What a metal makes of one drawn direction, given with its dot product
/// with the surface normal: the direction, where the product is above zero;
/// else nothing.
pub open spec fn kept(drawn: (Vec3, Scalar)) -> Option<Vec3> {
    if drawn.1 > ZERO {
        Some(drawn.0)
    } else {
        None
    }
}

/// The first of the drawn directions that points out of the surface, or
/// nothing where none does.
pub open spec fn first_outward(drawn: Seq<(Vec3, Scalar)>) -> Option<Vec3>
    decreases drawn.len(),
{
    if drawn.len() == 0 {
        None
    } else if first_outward(drawn.drop_last()) is Some {
        first_outward(drawn.drop_last())
    } else {
        kept(drawn.last())
    }
}

/// Whether `perturb` can draw the directions of `drawn`, one after the
/// other.
pub open spec fn draws<F: Fn() -> (Vec3, Scalar)>(perturb: &F, drawn: Seq<(Vec3, Scalar)>) -> bool {
    forall|i: int| 0 <= i < drawn.len() ==> perturb.ensures((), #[trigger] drawn[i])
}

/// Whether `chosen` is what a fuzzy metal settles on with the draws of
/// `perturb`: there are directions that `perturb` can draw, at most
/// [`MAX_TRIES`] of them, of which `chosen` is the first that points out of
/// the surface; and where none does, there are [`MAX_TRIES`] of them, each
/// rejected in its turn.
pub open spec fn settles<F: Fn() -> (Vec3, Scalar)>(perturb: &F, chosen: Option<Vec3>) -> bool {
    exists|drawn: Seq<(Vec3, Scalar)>|
        {
            &&& #[trigger] draws(perturb, drawn)
            &&& drawn.len() <= MAX_TRIES
            &&& chosen == first_outward(drawn)
            &&& chosen is None ==> drawn.len() == MAX_TRIES
        }
}

/// The direction of a scattered ray, if there is one.
pub open spec fn direction_of(ray: Option<Scattered>) -> Option<Vec3> {
    match ray {
        Some(s) => Some(s.direction),
        None => None,
    }
}

/// A metal surface. It reflects a ray like a mirror, blurred by `fuzz`.
pub struct Metal {
    pub albedo: Color,
    pub fuzz: Scalar,
}

impl Metal {
    /// What a metal makes of a drawn direction, given with its dot product
    /// with the surface normal: the ray leaves along it where it points out
    /// of the surface, which is where the product is above zero; else the
    /// direction is rejected.
    pub fn accepted(drawn: (Vec3, Scalar)) -> (r: Option<Vec3>)
        ensures
            r == kept(drawn),
    {
        if drawn.1 > ZERO {
            Some(drawn.0)
        } else {
            None
        }
    }

    /// The first of up to [`MAX_TRIES`] drawn directions that points out of
    /// the surface, or `None` where none of them does. Directions behind
    /// the first [`MAX_TRIES`] are not looked at.
    pub fn first_accepted(drawn: &Vec<(Vec3, Scalar)>) -> (r: Option<Vec3>)
        ensures
            r == first_outward(
                drawn@.take(
                    if drawn@.len() <= MAX_TRIES {
                        drawn@.len() as int
                    } else {
                        MAX_TRIES as int
                    },
                ),
            ),
    {
        let mut tries: usize = 0;
        assert(drawn@.take(0).len() == 0);
        while tries < drawn.len() && tries < MAX_TRIES as usize
            invariant
                tries <= drawn@.len(),
                tries <= MAX_TRIES,
                first_outward(drawn@.take(tries as int)) is None,
            decreases drawn@.len() - tries,
        {
            let chosen = Metal::accepted(drawn[tries]);
            assert(drawn@.take(tries + 1).drop_last() == drawn@.take(tries as int));
            assert(drawn@.take(tries + 1).last() == drawn@[tries as int]);
            if chosen.is_some() {
                proof {
                    lemma_first_stays(drawn@, tries + 1);
                }
                return chosen;
            }
            tries = tries + 1;
        }
        None
    }

    /// The attenuation of every ray that the metal scatters: its albedo.
    pub fn attenuation(&self) -> (c: Color)
        ensures
            c == self.albedo,
    {
        self.albedo
    }

    /// The ray that the metal scatters where it is hit at `hit` by a ray of
    /// time `time`, or `None` where the ray is absorbed. The scattered ray
    /// starts at the hit point, keeps the time, leaves along the direction
    /// that [`Metal::settle`] gives, and is attenuated by the albedo. So a
    /// metal without fuzz sends the ray on along `mirror`, unchanged,
    /// wherever that points out of the surface.
    pub fn scatter_along<M, F: Fn() -> (Vec3, Scalar)>(
        &self,
        hit: &HitResult<M>,
        time: Scalar,
        mirror: Vec3,
        alignment: Scalar,
        perturb: &F,
    ) -> (r: Option<Scattered>)
        requires
            perturb.requires(()),
        ensures
            self.fuzz <= ZERO ==> direction_of(r) == kept((mirror, alignment)),
            self.fuzz > ZERO ==> settles(perturb, direction_of(r)),
            r matches Some(s) ==> s.origin == hit.point && s.time == time && s.attenuation
                == self.albedo,
    {
        match self.settle(mirror, alignment, perturb) {
            Some(direction) => Some(
                Scattered { origin: hit.point, direction, time, attenuation: self.attenuation() },
            ),
            None => None,
        }
    }

    /// The direction of the scattered ray, or `None` where the ray is
    /// absorbed.
    ///
    /// `mirror` is the mirror image of the incoming direction, and
    /// `alignment` its dot product with the surface normal. `perturb` draws
    /// a direction near `mirror` and gives it with its dot product with the
    /// normal.
    ///
    /// Without fuzz the ray leaves along `mirror`, unchanged, where that
    /// points out of the surface, and is absorbed where it does not. With
    /// fuzz a direction is drawn, and drawn again as long as it does not
    /// point out of the surface: the ray leaves along the first of up to
    /// [`MAX_TRIES`] drawn directions that does, and is absorbed where none
    /// of [`MAX_TRIES`] does; see [`settles`].
    pub fn settle<F: Fn() -> (Vec3, Scalar)>(&self, mirror: Vec3, alignment: Scalar, perturb: &F) -> (r:
        Option<Vec3>)
        requires
            perturb.requires(()),
        ensures
            self.fuzz <= ZERO ==> r == kept((mirror, alignment)),
            self.fuzz > ZERO ==> settles(perturb, r),
    {
        if self.fuzz <= ZERO {
            return Metal::accepted((mirror, alignment));
        }
        let ghost mut drawn: Seq<(Vec3, Scalar)> = Seq::empty();
        let mut tries: u32 = 0;
        while tries < MAX_TRIES
            invariant
                self.fuzz > ZERO,
                perturb.requires(()),
                tries <= MAX_TRIES,
                drawn.len() == tries,
                draws(perturb, drawn),
                first_outward(drawn) is None,
            decreases MAX_TRIES - tries,
        {
            let next = perturb();
            let chosen = Metal::accepted(next);
            proof {
                let before = drawn;
                drawn = drawn.push(next);
                assert(drawn.drop_last() == before);
                assert(drawn.last() == next);
                assert forall|i: int| 0 <= i < drawn.len() implies perturb.ensures(
                    (),
                    #[trigger] drawn[i],
                ) by {
                    if i < before.len() {
                        assert(drawn[i] == before[i]);
                    }
                }
            }
            if chosen.is_some() {
                assert(draws(perturb, drawn) && chosen == first_outward(drawn));
                return chosen;
            }
            tries = tries + 1;
        }
        assert(draws(perturb, drawn) && drawn.len() == MAX_TRIES);
        None
    }
}

/// The first direction that points out of the surface among the first `n`
/// drawn is also the first among any more of them.
pub proof fn lemma_first_stays(drawn: Seq<(Vec3, Scalar)>, n: int)
    requires
        0 <= n <= drawn.len(),
        first_outward(drawn.take(n)) is Some,
    ensures
        forall|m: int|
            n <= m <= drawn.len() ==> #[trigger] first_outward(drawn.take(m)) == first_outward(
                drawn.take(n),
            ),
{
    assert forall|m: int| n <= m <= drawn.len() implies #[trigger] first_outward(drawn.take(m))
        == first_outward(drawn.take(n)) by {
        lemma_first_stays_to(drawn, n, m);
    }
}

proof fn lemma_first_stays_to(drawn: Seq<(Vec3, Scalar)>, n: int, m: int)
    requires
        0 <= n <= m <= drawn.len(),
        first_outward(drawn.take(n)) is Some,
    ensures
        first_outward(drawn.take(m)) == first_outward(drawn.take(n)),
    decreases m - n,
{
    if n < m {
        lemma_first_stays_to(drawn, n, m - 1);
        assert(drawn.take(m).drop_last() == drawn.take(m - 1));
    }
}

} // verus!
