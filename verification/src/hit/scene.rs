//! A flat list of geometry, searched from front to back.
use vstd::prelude::*;
use crate::hit::closest::{
    answered, closest_among, firsts, lemma_scan_finds_closest, searches,
};
use crate::hit::{closer_than, Hit, HitResult};
use crate::math::aabb::Aabb;
use crate::math::interval::Interval;
use crate::scalar::Scalar;

verus! {

/// What a linear scan over the first `upto` of `objects` finds: each object
/// is asked for a hit closer than the closest found before it.
pub open spec fn scan<T: Hit>(objects: Seq<T>, ray: &T::Ray, window: Interval, upto: int) -> Option<
    HitResult<T::Material>,
>
    decreases upto,
{
    if upto <= 0 {
        None
    } else {
        let before = scan(objects, ray, window, upto - 1);
        let here = objects[upto - 1].first_hit(
            ray,
            Interval { start: window.start, end: closer_than(before, window.end) },
        );
        if here is Some {
            here
        } else {
            before
        }
    }
}

/// The hull of the box at the origin and the boxes of the first `upto` of
/// `objects`.
pub open spec fn hull_of<T: Hit>(objects: Seq<T>, upto: int) -> Aabb
    decreases upto,
{
    if upto <= 0 {
        Aabb::default_box()
    } else {
        hull_of(objects, upto - 1).hull(objects[upto - 1].bounds())
    }
}

/// A list of geometry with the box that encloses all of it.
pub struct Scene<T: Hit> {
    objects: Vec<T>,
    bounding_box: Aabb,
}

impl<T: Hit> Scene<T> {
    /// The objects, in the order in which they were added.
    pub closed spec fn objects(&self) -> Seq<T> {
        self.objects@
    }

    /// What holds of every scene: its box is the hull of the box at the
    /// origin and the boxes of its objects.
    pub open spec fn wf(&self) -> bool {
        self.bounds() == hull_of(self.objects(), self.objects().len() as int)
    }

    #[verifier::type_invariant]
    closed spec fn inv(&self) -> bool {
        self.wf()
    }

    /// The box of a scene encloses the box of each of its objects.
    pub proof fn lemma_encloses_object(self, i: int)
        requires
            self.wf(),
            0 <= i < self.objects().len(),
        ensures
            self.bounds().covers(self.objects()[i].bounds()),
    {
        lemma_hull_of_encloses(self.objects(), self.objects().len() as int, i);
    }

    /// The empty scene.
    pub fn new() -> (r: Self)
        ensures
            r.wf(),
            r.objects() == Seq::<T>::empty(),
            r.bounds() == Aabb::default_box(),
    {
        Scene { objects: Vec::new(), bounding_box: Aabb::default() }
    }

    /// The scene with `object` added behind the others.
    pub fn add(self, object: T) -> (r: Self)
        ensures
            r.wf(),
            r.objects() == self.objects().push(object),
            r.bounds() == self.bounds().hull(object.bounds()),
    {
        proof {
            use_type_invariant(&self);
        }
        let ghost before = self.objects@;
        let Scene { mut objects, mut bounding_box } = self;
        bounding_box.combine(object.bounding_box());
        objects.push(object);
        proof {
            assert(objects@.drop_last() == before);
            assert(hull_of(objects@, before.len() as int) == hull_of(before, before.len() as int))
                by {
                lemma_hull_of_prefix(objects@, before, before.len() as int);
            }
        }
        Scene { objects, bounding_box }
    }

    /// The number of objects.
    pub fn len(&self) -> (r: usize)
        ensures
            r == self.objects().len(),
    {
        self.objects.len()
    }
}

/// Collects the objects of a scene.
pub struct SceneBuilder<T: Hit> {
    scene: Scene<T>,
}

impl<T: Hit> SceneBuilder<T> {
    /// The objects collected so far.
    pub closed spec fn objects(&self) -> Seq<T> {
        self.scene.objects()
    }

    /// The builder of an empty scene.
    pub fn new() -> (r: Self)
        ensures
            r.objects() == Seq::<T>::empty(),
    {
        SceneBuilder { scene: Scene::new() }
    }

    /// The builder with `object` added behind the others.
    pub fn add(self, object: T) -> (r: Self)
        ensures
            r.objects() == self.objects().push(object),
    {
        SceneBuilder { scene: self.scene.add(object) }
    }

    /// The scene of the objects collected.
    pub fn build(self) -> (r: Scene<T>)
        ensures
            r.wf(),
            r.objects() == self.objects(),
    {
        let scene = self.scene;
        proof {
            use_type_invariant(&scene);
        }
        scene
    }
}

/// The hull of a prefix encloses the box of each object of the prefix.
pub proof fn lemma_hull_of_encloses<T: Hit>(objects: Seq<T>, upto: int, i: int)
    requires
        0 <= i < upto <= objects.len(),
    ensures
        hull_of(objects, upto).covers(objects[i].bounds()),
    decreases upto,
{
    if i < upto - 1 {
        lemma_hull_of_encloses(objects, upto - 1, i);
    }
}

/// The hull of a prefix depends on that prefix alone.
pub proof fn lemma_hull_of_prefix<T: Hit>(a: Seq<T>, b: Seq<T>, upto: int)
    requires
        0 <= upto <= a.len(),
        upto <= b.len(),
        forall|i: int| 0 <= i < upto ==> a[i] == b[i],
    ensures
        hull_of(a, upto) == hull_of(b, upto),
    decreases upto,
{
    if upto > 0 {
        lemma_hull_of_prefix(a, b, upto - 1);
    }
}

impl<T: Hit> Hit for Scene<T> {
    type Ray = T::Ray;

    type Material = T::Material;

    closed spec fn bounds(&self) -> Aabb {
        self.bounding_box
    }

    open spec fn first_hit(&self, ray: &T::Ray, t_interval: Interval) -> Option<
        HitResult<T::Material>,
    > {
        scan(self.objects(), ray, t_interval, self.objects().len() as int)
    }

    /// Asks each object in turn for a hit closer than the closest so far;
    /// see [`scan`]. What it finds is what one of the objects finds in a
    /// window inside `t_interval`: so it finds nothing where no object is
    /// hit in any such window. Where the objects answer the ray inside `t_interval` as
    /// closest-hit searches do, what it finds is the closest hit among all
    /// objects.
    fn hit(&self, ray: &T::Ray, t_interval: Interval) -> (r: Option<HitResult<T::Material>>)
        ensures
            answered(
                self.objects(),
                firsts(self.objects().len() as int),
                ray,
                t_interval,
                r,
            ),
            (forall|i: int|
                0 <= i < self.objects().len() ==> searches(
                    #[trigger] self.objects()[i],
                    ray,
                    t_interval,
                )) ==> closest_among(
                self.objects(),
                firsts(self.objects().len() as int),
                ray,
                t_interval,
                r,
            ),
    {
        let count: usize = self.objects.len();
        proof {
            if forall|i: int|
                0 <= i < self.objects().len() ==> searches(
                    #[trigger] self.objects()[i],
                    ray,
                    t_interval,
                ) {
                lemma_scan_finds_closest(
                    self.objects@,
                    ray,
                    t_interval,
                    self.objects@.len() as int,
                );
            }
        }
        let mut closest_hit: Option<HitResult<T::Material>> = None;
        let mut i: usize = 0;
        while i < self.objects.len()
            invariant
                i <= self.objects@.len(),
                closest_hit == scan(self.objects@, ray, t_interval, i as int),
                closest_hit matches Some(h) ==> t_interval.holds(h.t),
                answered(self.objects@, firsts(i as int), ray, t_interval, closest_hit),
            decreases self.objects@.len() - i,
        {
            let end = match &closest_hit {
                Some(h) => h.t,
                None => t_interval.end(),
            };
            let nearer = Interval::new(t_interval.start(), end);
            let found = self.objects[i].hit(ray, nearer);
            proof {
                if found is Some {
                    assert(firsts(i + 1).contains(i) && t_interval.covers(nearer)
                        && self.objects@[i as int].first_hit(ray, nearer) == found);
                } else if closest_hit is Some {
                    let (j, inner) = choose|j: usize, inner: Interval|
                        firsts(i as int).contains(j) && t_interval.covers(inner)
                            && #[trigger] self.objects@[j as int].first_hit(ray, inner)
                            == closest_hit;
                    assert(firsts(i + 1).contains(j));
                }
            }
            if found.is_some() {
                closest_hit = found;
            }
            i = i + 1;
        }
        closest_hit
    }

    fn bounding_box(&self) -> (r: &Aabb) {
        &self.bounding_box
    }

    open spec fn meets(ray: &T::Ray, axis: u32, plane: Scalar) -> Option<Scalar> {
        T::meets(ray, axis, plane)
    }

    open spec fn descends(ray: &T::Ray, axis: u32) -> bool {
        T::descends(ray, axis)
    }

    fn plane(ray: &T::Ray, axis: u32, plane: Scalar) -> (t: Option<Scalar>) {
        T::plane(ray, axis, plane)
    }

    fn backwards(ray: &T::Ray, axis: u32) -> (b: bool) {
        T::backwards(ray, axis)
    }
}

} // verus!
