//! Axis-aligned bounding boxes.
use vstd::prelude::*;
use crate::math::interval::Interval;
use crate::hit::Hit;
use crate::scalar::{lower, negated, upper, Scalar, INFINITY};
use crate::vec::Vec3;

verus! {

/// An axis-aligned box: one range per axis. On every axis of a well-formed
/// box the start is not above the end.
#[derive(Clone, Copy, Debug, PartialEq, Eq, Structural)]
pub struct Aabb(pub Interval, pub Interval, pub Interval);

/// `window` after a ray's entry into and exit from one slab have been taken
/// into account: the start rises to `entry` and the end falls to `exit`,
/// where they are numbers and tighter than what the window had.
pub open spec fn narrowed(window: Interval, entry: Option<Scalar>, exit: Option<Scalar>) -> Interval {
    Interval {
        start: match entry {
            Some(t) => upper(t, window.start),
            None => window.start,
        },
        end: match exit {
            Some(t) => lower(t, window.end),
            None => window.end,
        },
    }
}

impl Aabb {
    /// Whether no axis has its start above its end.
    pub open spec fn wf(self) -> bool {
        &&& self.0.start <= self.0.end
        &&& self.1.start <= self.1.end
        &&& self.2.start <= self.2.end
    }

    /// The range on axis `n`.
    pub open spec fn side(self, n: int) -> Interval {
        if n == 0 {
            self.0
        } else if n == 1 {
            self.1
        } else {
            self.2
        }
    }

    /// Whether `other` lies inside `self`.
    pub open spec fn covers(self, other: Aabb) -> bool {
        &&& self.0.covers(other.0)
        &&& self.1.covers(other.1)
        &&& self.2.covers(other.2)
    }

    /// The smallest box that covers both.
    pub open spec fn hull(self, other: Aabb) -> Aabb {
        Aabb(self.0.hull(other.0), self.1.hull(other.1), self.2.hull(other.2))
    }

    /// The box that holds the origin alone.
    pub open spec fn default_box() -> Aabb {
        Aabb(
            Interval { start: 0, end: 0 },
            Interval { start: 0, end: 0 },
            Interval { start: 0, end: 0 },
        )
    }

    /// The box spanned by two opposite corners, given in any order.
    pub open spec fn spanning(a: Vec3, b: Vec3) -> Aabb {
        Aabb(
            Interval { start: lower(a.0, b.0), end: upper(a.0, b.0) },
            Interval { start: lower(a.1, b.1), end: upper(a.1, b.1) },
            Interval { start: lower(a.2, b.2), end: upper(a.2, b.2) },
        )
    }

    /// Whether `p` lies in the box, faces included.
    pub open spec fn holds_point(self, p: Vec3) -> bool {
        &&& self.0.start <= p.0 <= self.0.end
        &&& self.1.start <= p.1 <= self.1.end
        &&& self.2.start <= p.2 <= self.2.end
    }

    /// Corner `n` of the eight: it lies at the end of the first axis where
    /// `n` has the bit of value four, at the end of the second where it has
    /// the bit of value two, at the end of the third where it has the bit of
    /// value one, and at the start of each other axis.
    pub open spec fn corner_at(self, n: int) -> Vec3 {
        Vec3(
            if (n / 4) % 2 == 1 {
                self.0.end
            } else {
                self.0.start
            },
            if (n / 2) % 2 == 1 {
                self.1.end
            } else {
                self.1.start
            },
            if n % 2 == 1 {
                self.2.end
            } else {
                self.2.start
            },
        )
    }

    /// The smallest coordinate on axis `n` among the first `upto` points;
    /// infinity where there is none.
    pub open spec fn lowest(points: Seq<Vec3>, n: int, upto: int) -> Scalar
        decreases upto,
    {
        if upto <= 0 {
            INFINITY
        } else {
            lower(Aabb::lowest(points, n, upto - 1), points[upto - 1].coordinate(n))
        }
    }

    /// The largest coordinate on axis `n` among the first `upto` points;
    /// minus infinity where there is none.
    pub open spec fn highest(points: Seq<Vec3>, n: int, upto: int) -> Scalar
        decreases upto,
    {
        if upto <= 0 {
            negated(INFINITY)
        } else {
            upper(Aabb::highest(points, n, upto - 1), points[upto - 1].coordinate(n))
        }
    }

    /// The box between the smallest and the largest coordinates of the first
    /// `upto` points.
    pub open spec fn around(points: Seq<Vec3>, upto: int) -> Aabb {
        Aabb::spanning(
            Vec3(
                Aabb::lowest(points, 0, upto),
                Aabb::lowest(points, 1, upto),
                Aabb::lowest(points, 2, upto),
            ),
            Vec3(
                Aabb::highest(points, 0, upto),
                Aabb::highest(points, 1, upto),
                Aabb::highest(points, 2, upto),
            ),
        )
    }

    /// The box around points holds each of them.
    pub proof fn lemma_around_holds(points: Seq<Vec3>, upto: int, i: int)
        requires
            0 <= i < upto <= points.len(),
        ensures
            Aabb::around(points, upto).holds_point(points[i]),
            forall|n: int|
                0 <= n < 3 ==> Aabb::lowest(points, n, upto) <= (#[trigger] points[i].coordinate(n))
                    <= Aabb::highest(points, n, upto),
        decreases upto,
    {
        if i < upto - 1 {
            Aabb::lemma_around_holds(points, upto - 1, i);
        }
    }

    /// `window` after the slab of axis `n` has been taken into account.
    pub open spec fn slab<T: Hit>(self, ray: &T::Ray, n: u32, window: Interval) -> Interval {
        let near = T::meets(ray, n, self.side(n as int).start);
        let far = T::meets(ray, n, self.side(n as int).end);
        if T::descends(ray, n) {
            narrowed(window, far, near)
        } else {
            narrowed(window, near, far)
        }
    }

    /// `window` as the slab test leaves it: narrowed axis by axis, up to and
    /// including the first axis that leaves it empty.
    pub open spec fn swept<T: Hit>(self, ray: &T::Ray, window: Interval) -> Interval {
        let w0 = self.slab::<T>(ray, 0, window);
        if w0.empty() {
            w0
        } else {
            let w1 = self.slab::<T>(ray, 1, w0);
            if w1.empty() {
                w1
            } else {
                self.slab::<T>(ray, 2, w1)
            }
        }
    }

    /// The box spanned by two opposite corners, given in any order.
    pub fn with_extrema(a: Vec3, b: Vec3) -> (r: Aabb)
        ensures
            r == Aabb::spanning(a, b),
            r.wf(),
    {
        Aabb(
            Interval::new(crate::scalar::min(a.0, b.0), crate::scalar::max(a.0, b.0)),
            Interval::new(crate::scalar::min(a.1, b.1), crate::scalar::max(a.1, b.1)),
            Interval::new(crate::scalar::min(a.2, b.2), crate::scalar::max(a.2, b.2)),
        )
    }

    /// Widens the box until it covers `rhs` too.
    pub fn combine(&mut self, rhs: &Aabb)
        ensures
            *final(self) == old(self).hull(*rhs),
            final(self).covers(*old(self)),
            final(self).covers(*rhs),
            old(self).wf() && rhs.wf() ==> final(self).wf(),
    {
        self.0.combine(&rhs.0);
        self.1.combine(&rhs.1);
        self.2.combine(&rhs.2);
    }

    /// The smallest box that covers both `self` and `rhs`.
    pub fn combined(&self, rhs: &Aabb) -> (r: Aabb)
        ensures
            r == self.hull(*rhs),
            r.covers(*self),
            r.covers(*rhs),
            self.wf() && rhs.wf() ==> r.wf(),
    {
        Aabb(self.0.combined(&rhs.0), self.1.combined(&rhs.1), self.2.combined(&rhs.2))
    }

    /// The range on axis `n`: 0, 1 or 2.
    pub fn axis(&self, n: u32) -> (r: &Interval)
        requires
            n < 3,
        ensures
            *r == self.side(n as int),
    {
        if n == 0 {
            &self.0
        } else if n == 1 {
            &self.1
        } else {
            &self.2
        }
    }

    /// Corner `n` of the eight; see [`Aabb::corner_at`].
    pub fn corner(&self, n: u32) -> (r: Vec3)
        requires
            n < 8,
        ensures
            r == self.corner_at(n as int),
    {
        Vec3(
            if (n / 4) % 2 == 1 {
                self.0.end()
            } else {
                self.0.start()
            },
            if (n / 2) % 2 == 1 {
                self.1.end()
            } else {
                self.1.start()
            },
            if n % 2 == 1 {
                self.2.end()
            } else {
                self.2.start()
            },
        )
    }

    /// The eight corners, in the order of [`Aabb::corner_at`].
    pub fn corners(&self) -> (r: Vec<Vec3>)
        ensures
            r@.len() == 8,
            forall|n: int| 0 <= n < 8 ==> r@[n] == self.corner_at(n),
    {
        let mut r: Vec<Vec3> = Vec::new();
        let mut n: u32 = 0;
        while n < 8
            invariant
                n <= 8,
                r@.len() == n,
                forall|k: int| 0 <= k < n ==> r@[k] == self.corner_at(k),
            decreases 8 - n,
        {
            r.push(self.corner(n));
            n = n + 1;
        }
        r
    }

    /// The smallest box that holds all of `points`: on each axis it reaches
    /// from their smallest to their largest coordinate.
    pub fn enclosing(points: &Vec<Vec3>) -> (r: Aabb)
        ensures
            r == Aabb::around(points@, points@.len() as int),
            forall|i: int| 0 <= i < points@.len() ==> r.holds_point(points@[i]),
    {
        let mut min = Vec3(INFINITY, INFINITY, INFINITY);
        let mut max = Vec3(
            crate::scalar::negate(INFINITY),
            crate::scalar::negate(INFINITY),
            crate::scalar::negate(INFINITY),
        );
        let mut k: usize = 0;
        while k < points.len()
            invariant
                k <= points@.len(),
                min == Vec3(
                    Aabb::lowest(points@, 0, k as int),
                    Aabb::lowest(points@, 1, k as int),
                    Aabb::lowest(points@, 2, k as int),
                ),
                max == Vec3(
                    Aabb::highest(points@, 0, k as int),
                    Aabb::highest(points@, 1, k as int),
                    Aabb::highest(points@, 2, k as int),
                ),
            decreases points@.len() - k,
        {
            let p = points[k];
            let mut i: u32 = 0;
            while i < 3
                invariant
                    i <= 3,
                    k < points@.len(),
                    p == points@[k as int],
                    forall|n: int|
                        0 <= n < 3 ==> min.coordinate(n) == if n < i {
                            Aabb::lowest(points@, n, k + 1)
                        } else {
                            Aabb::lowest(points@, n, k as int)
                        },
                    forall|n: int|
                        0 <= n < 3 ==> max.coordinate(n) == if n < i {
                            Aabb::highest(points@, n, k + 1)
                        } else {
                            Aabb::highest(points@, n, k as int)
                        },
                decreases 3 - i,
            {
                let ghost low = min;
                let ghost high = max;
                min.set_axis(i, crate::scalar::min(min.axis(i), p.axis(i)));
                max.set_axis(i, crate::scalar::max(max.axis(i), p.axis(i)));
                assert forall|n: int| 0 <= n < 3 implies min.coordinate(n) == if n < i + 1 {
                    Aabb::lowest(points@, n, k + 1)
                } else {
                    Aabb::lowest(points@, n, k as int)
                } by {
                    assert(low.coordinate(n) == if n < i {
                        Aabb::lowest(points@, n, k + 1)
                    } else {
                        Aabb::lowest(points@, n, k as int)
                    });
                }
                assert forall|n: int| 0 <= n < 3 implies max.coordinate(n) == if n < i + 1 {
                    Aabb::highest(points@, n, k + 1)
                } else {
                    Aabb::highest(points@, n, k as int)
                } by {
                    assert(high.coordinate(n) == if n < i {
                        Aabb::highest(points@, n, k + 1)
                    } else {
                        Aabb::highest(points@, n, k as int)
                    });
                }
                i = i + 1;
            }
            assert(min.coordinate(0) == min.0 && min.coordinate(1) == min.1 && min.coordinate(2)
                == min.2);
            assert(max.coordinate(0) == max.0 && max.coordinate(1) == max.1 && max.coordinate(2)
                == max.2);
            k = k + 1;
        }
        proof {
            assert forall|i: int| 0 <= i < points@.len() implies Aabb::around(
                points@,
                points@.len() as int,
            ).holds_point(points@[i]) by {
                Aabb::lemma_around_holds(points@, points@.len() as int, i);
            }
        }
        Aabb::with_extrema(min, max)
    }

    /// The slab test. Narrows `t_interval` to the part of it in which `ray`
    /// is inside the box, one axis after the other, and stops at the first
    /// axis that leaves nothing. Returns whether anything is left. `T` is
    /// the geometry whose rays are tested.
    pub fn hit<T: Hit>(&self, ray: &T::Ray, t_interval: &mut Interval) -> (r: bool)
        ensures
            *final(t_interval) == self.swept::<T>(ray, *old(t_interval)),
            r == !self.swept::<T>(ray, *old(t_interval)).empty(),
            old(t_interval).covers(*final(t_interval)),
    {
        let mut i: u32 = 0;
        while i < 3
            invariant
                i <= 3,
                i == 0 ==> *t_interval == *old(t_interval),
                i == 1 ==> *t_interval == self.slab::<T>(ray, 0, *old(t_interval)) && !t_interval.empty(),
                i == 2 ==> *t_interval == self.slab::<T>(ray, 1, self.slab::<T>(ray, 0, *old(t_interval)))
                    && !self.slab::<T>(ray, 0, *old(t_interval)).empty() && !t_interval.empty(),
                i == 3 ==> *t_interval == self.swept::<T>(ray, *old(t_interval)) && !t_interval.empty(),
            decreases 3 - i,
        {
            let side = self.axis(i);
            let mut t0: Option<Scalar> = T::plane(ray, i, side.start());
            let mut t1: Option<Scalar> = T::plane(ray, i, side.end());
            if T::backwards(ray, i) {
                let t: Option<Scalar> = t0;
                t0 = t1;
                t1 = t;
            }
            if let Some(t) = t0 {
                if t > t_interval.start() {
                    t_interval.set_start(t);
                }
            }
            if let Some(t) = t1 {
                if t < t_interval.end() {
                    t_interval.set_end(t);
                }
            }
            if t_interval.is_empty() {
                return false;
            }
            i = i + 1;
        }
        true
    }
}

impl Default for Aabb {
    /// The box that holds the origin alone.
    fn default() -> (r: Aabb)
        ensures
            r == Aabb::default_box(),
    {
        Aabb(Interval::default(), Interval::default(), Interval::default())
    }
}

} // verus!
