//! The hierarchy and the linear scan find the same hit.
//!
//! Both searches are proved to return the closest hit among their objects in
//! the window that they are asked for, wherever the objects answer lawfully
//! in that window: in every window inside it that does not start behind an
//! object's hit, the object finds that same hit or, where the window ends
//! before it, nothing; and the slab test of a box around the object keeps
//! the hit in every such window that holds it.
use vstd::prelude::*;
use crate::hit::bvh::{BvhNode, Tree};
use crate::hit::scene::{scan, Scene};
use crate::hit::{closer_than, hit_t, Hit, HitResult};
use crate::math::aabb::Aabb;
use crate::math::interval::Interval;
use crate::scalar::Scalar;

verus! {

/// `found`, where it lies before `end`; else nothing.
pub open spec fn cut<M>(found: Option<HitResult<M>>, end: Scalar) -> Option<HitResult<M>> {
    match found {
        Some(h) => if h.t < end {
            found
        } else {
            None
        },
        None => None,
    }
}

/// Whether `object` answers `ray` inside the window `asked` as a
/// closest-hit search does. Where it finds nothing in `asked`, it finds
/// nothing in any window inside `asked`. Where it finds a hit in `asked`,
/// the hit lies in `asked`, and in every window inside `asked` that does not
/// start behind the hit it finds that same hit, or nothing where the window
/// ends at or before it.
pub open spec fn searches<T: Hit>(object: T, ray: &T::Ray, asked: Interval) -> bool {
    match object.first_hit(ray, asked) {
        None => forall|w: Interval|
            asked.covers(w) ==> (#[trigger] object.first_hit(ray, w)) is None,
        Some(h) => {
            &&& asked.holds(h.t)
            &&& forall|w: Interval|
                asked.covers(w) && w.start <= h.t ==> #[trigger] object.first_hit(ray, w) == cut(
                    object.first_hit(ray, asked),
                    w.end,
                )
        },
    }
}

/// Whether the slab test of every box that encloses the box of `object`
/// keeps the hit that `object` has in `asked`: a window inside `asked` that
/// holds the hit's parameter still holds it after the test.
pub open spec fn enclosed<T: Hit>(object: T, ray: &T::Ray, asked: Interval) -> bool {
    object.first_hit(ray, asked) matches Some(h) ==> forall|around: Aabb, w: Interval|
        around.covers(object.bounds()) && asked.covers(w) && w.holds(h.t) ==> (#[trigger] around.swept::<
            T,
        >(ray, w)).holds(h.t)
}

/// Whether every object answers `ray` lawfully inside the window `asked`.
pub open spec fn lawful<T: Hit>(objects: Seq<T>, ray: &T::Ray, asked: Interval) -> bool {
    forall|i: int|
        0 <= i < objects.len() ==> searches(#[trigger] objects[i], ray, asked) && enclosed(
            objects[i],
            ray,
            asked,
        )
}

/// Whether `w` is a window inside `asked` that starts behind no hit that an
/// object of `among` has in `asked`.
pub open spec fn admissible<T: Hit>(
    objects: Seq<T>,
    among: Set<usize>,
    ray: &T::Ray,
    asked: Interval,
    w: Interval,
) -> bool {
    &&& asked.covers(w)
    &&& forall|i: usize|
        among.contains(i) ==> (#[trigger] objects[i as int].first_hit(ray, asked) matches Some(h)
            ==> w.start <= h.t)
}

/// In a window inside `asked` that does not start behind its hit, an object
/// that searches finds its hit of `asked`, cut at the window's end; and what
/// it finds lies in the window.
pub proof fn lemma_answer<T: Hit>(object: T, ray: &T::Ray, asked: Interval, w: Interval)
    requires
        searches(object, ray, asked),
        asked.covers(w),
        object.first_hit(ray, asked) matches Some(h) ==> w.start <= h.t,
    ensures
        object.first_hit(ray, w) == cut(object.first_hit(ray, asked), w.end),
        object.first_hit(ray, w) matches Some(h) ==> w.holds(h.t),
{
}

/// Whether `found` is the closest hit of `ray` in `w` with the objects that
/// `among` names: the hit of one of them, with no hit of another before it;
/// or nothing, where none of them is hit.
pub open spec fn closest_among<T: Hit>(
    objects: Seq<T>,
    among: Set<usize>,
    ray: &T::Ray,
    w: Interval,
    found: Option<HitResult<T::Material>>,
) -> bool {
    match found {
        None => forall|i: usize|
            among.contains(i) ==> (#[trigger] objects[i as int].first_hit(ray, w)) is None,
        Some(h) => {
            &&& exists|i: usize|
                among.contains(i) && #[trigger] objects[i as int].first_hit(ray, w) == found
            &&& forall|i: usize|
                among.contains(i) ==> (#[trigger] objects[i as int].first_hit(ray, w) matches Some(
                    o,
                ) ==> h.t <= o.t)
        },
    }
}

/// Whether `found` is the answer of one of the objects that `among` names:
/// what that object finds in some window inside `w`. Nothing is such an
/// answer too.
pub open spec fn answered<T: Hit>(
    objects: Seq<T>,
    among: Set<usize>,
    ray: &T::Ray,
    w: Interval,
    found: Option<HitResult<T::Material>>,
) -> bool {
    found is Some ==> exists|i: usize, inner: Interval|
        among.contains(i) && w.covers(inner) && #[trigger] objects[i as int].first_hit(ray, inner)
            == found
}

/// Whether no two objects are hit by `ray` in `w` at the same parameter.
pub open spec fn no_ties<T: Hit>(objects: Seq<T>, ray: &T::Ray, w: Interval) -> bool {
    forall|i: int, j: int|
        0 <= i < objects.len() && 0 <= j < objects.len() && i != j ==> (#[trigger] objects[i].first_hit(
            ray,
            w,
        ) matches Some(a) ==> (#[trigger] objects[j].first_hit(ray, w) matches Some(b) ==> a.t
            != b.t))
}

/// The objects that are leaves of `tree`.
pub open spec fn leaves(tree: Tree) -> Set<usize> {
    Set::new(|i: usize| tree.has_leaf(i))
}

/// The first `upto` objects.
pub open spec fn firsts(upto: int) -> Set<usize> {
    Set::new(|i: usize| i < upto)
}

/// Two closest hits among the same objects have the same parameter, and are
/// the same hit where no two objects tie.
pub proof fn lemma_closest_unique<T: Hit>(
    objects: Seq<T>,
    among: Set<usize>,
    ray: &T::Ray,
    w: Interval,
    one: Option<HitResult<T::Material>>,
    other: Option<HitResult<T::Material>>,
)
    requires
        closest_among(objects, among, ray, w, one),
        closest_among(objects, among, ray, w, other),
        forall|i: usize| among.contains(i) ==> i < objects.len(),
    ensures
        hit_t(one) == hit_t(other),
        no_ties(objects, ray, w) ==> one == other,
{
    if let Some(h) = one {
        let i = choose|i: usize| among.contains(i) && objects[i as int].first_hit(ray, w) == one;
        if let Some(g) = other {
            let j = choose|j: usize|
                among.contains(j) && objects[j as int].first_hit(ray, w) == other;
            assert(h.t <= g.t && g.t <= h.t);
            if no_ties(objects, ray, w) {
                if i != j {
                    assert(objects[i as int].first_hit(ray, w) matches Some(a) ==> (objects[j as int].first_hit(
                        ray,
                        w,
                    ) matches Some(b) ==> a.t != b.t));
                }
            }
        } else {
            assert(objects[i as int].first_hit(ray, w) is None);
        }
    } else if let Some(g) = other {
        let j = choose|j: usize| among.contains(j) && objects[j as int].first_hit(ray, w) == other;
        assert(objects[j as int].first_hit(ray, w) is None);
    }
}

/// The linear scan over the first `upto` objects finds the closest hit
/// among them in the window `w`, where each object searches inside `w`.
pub proof fn lemma_scan_finds_closest<T: Hit>(
    objects: Seq<T>,
    ray: &T::Ray,
    w: Interval,
    upto: int,
)
    requires
        0 <= upto <= objects.len() <= usize::MAX,
        forall|i: int| 0 <= i < objects.len() ==> searches(#[trigger] objects[i], ray, w),
    ensures
        closest_among(objects, firsts(upto), ray, w, scan(objects, ray, w, upto)),
    decreases upto,
{
    if upto > 0 {
        lemma_scan_finds_closest(objects, ray, w, upto - 1);
        let before = scan(objects, ray, w, upto - 1);
        let last = (upto - 1) as usize;
        let object = objects[upto - 1];
        let nearer = Interval { start: w.start, end: closer_than(before, w.end) };
        let here = object.first_hit(ray, nearer);
        let found = scan(objects, ray, w, upto);
        assert(searches(object, ray, w));
        if let Some(b) = before {
            let i = choose|i: usize|
                firsts(upto - 1).contains(i) && objects[i as int].first_hit(ray, w) == before;
            assert(searches(objects[i as int], ray, w));
            assert(w.holds(b.t));
        }
        lemma_answer(object, ray, w, nearer);
        assert(here == cut(object.first_hit(ray, w), nearer.end));
        assert forall|i: usize| firsts(upto).contains(i) implies firsts(upto - 1).contains(i) || i
            == last by {}
        match found {
            None => {
                assert(nearer == w);
            },
            Some(h) => {
                if here is Some {
                    assert(firsts(upto).contains(last));
                    assert(objects[last as int].first_hit(ray, w) == found);
                    assert(nearer.holds(h.t));
                } else {
                    let i = choose|i: usize|
                        firsts(upto - 1).contains(i) && objects[i as int].first_hit(ray, w)
                            == before;
                    assert(firsts(upto).contains(i));
                }
            },
        }
    }
}

/// The traversal of a well-formed tree finds the closest hit among its
/// leaves in every admissible window `w`, where the objects answer lawfully
/// inside `asked`.
pub proof fn lemma_tree_finds_closest<T: Hit>(
    tree: Tree,
    objects: Seq<T>,
    ray: &T::Ray,
    asked: Interval,
    w: Interval,
)
    requires
        tree.wf(objects),
        lawful(objects, ray, asked),
        admissible(objects, leaves(tree), ray, asked, w),
    ensures
        closest_among(objects, leaves(tree), ray, w, tree.first_hit(objects, ray, w)),
    decreases tree,
{
    let found = tree.first_hit(objects, ray, w);
    match tree {
        Tree::Leaf(i) => {
            assert(leaves(tree).contains(i));
        },
        Tree::Node { left, right, bounding_box } => {
            let inside = bounding_box.swept::<T>(ray, w);
            assert(w.covers(inside));
            // What every leaf finds in `w`, and that the slab test keeps it.
            assert forall|i: usize| #[trigger] leaves(tree).contains(i) implies i < objects.len()
                && searches(objects[i as int], ray, asked) && (leaves(*left).contains(i) || leaves(
                *right,
            ).contains(i)) && objects[i as int].first_hit(ray, w) == cut(
                objects[i as int].first_hit(ray, asked),
                w.end,
            ) && (objects[i as int].first_hit(ray, w) matches Some(h) ==> inside.holds(h.t)) by {
                tree.lemma_encloses(objects, Tree::Leaf(i));
                let object = objects[i as int];
                assert(searches(object, ray, asked) && enclosed(object, ray, asked));
                lemma_answer(object, ray, asked, w);
                if let Some(h) = object.first_hit(ray, w) {
                    assert(bounding_box.covers(object.bounds()));
                    assert(w.holds(h.t));
                }
            }
            assert forall|i: usize|
                leaves(*left).contains(i) || leaves(*right).contains(i) implies leaves(
                tree,
            ).contains(i) by {}
            if inside.empty() {
                assert forall|i: usize| leaves(tree).contains(i) implies (#[trigger] objects[i as int].first_hit(
                    ray,
                    w,
                )) is None by {}
            } else {
                // A window that the slab test leaves is admissible again.
                assert forall|i: usize| leaves(tree).contains(i) implies (#[trigger] objects[i as int].first_hit(
                    ray,
                    asked,
                ) matches Some(h) ==> inside.start <= h.t) by {
                    if let Some(h) = objects[i as int].first_hit(ray, asked) {
                        if objects[i as int].first_hit(ray, w) is None {
                            assert(w.end <= h.t);
                        }
                    }
                }
                assert(admissible(objects, leaves(tree), ray, asked, inside));
                assert(admissible(objects, leaves(*left), ray, asked, inside));
                lemma_tree_finds_closest(*left, objects, ray, asked, inside);
                let near = left.first_hit(objects, ray, inside);
                let nearer = Interval { start: inside.start, end: closer_than(near, inside.end) };
                // Every leaf answers in `inside` as it does in `w`.
                assert forall|i: usize| #[trigger] leaves(tree).contains(i) implies objects[i as int].first_hit(
                    ray,
                    inside,
                ) == objects[i as int].first_hit(ray, w) by {
                    lemma_answer(objects[i as int], ray, asked, inside);
                }
                if let Some(n) = near {
                    let i = choose|i: usize|
                        leaves(*left).contains(i) && objects[i as int].first_hit(ray, inside)
                            == near;
                    assert(leaves(tree).contains(i));
                    assert(inside.holds(n.t));
                    assert(objects[i as int].first_hit(ray, w) == near);
                }
                assert(inside.covers(nearer));
                assert(admissible(objects, leaves(*right), ray, asked, nearer));
                lemma_tree_finds_closest(*right, objects, ray, asked, nearer);
                let far = right.first_hit(objects, ray, nearer);
                assert forall|i: usize| #[trigger] leaves(tree).contains(i) implies objects[i as int].first_hit(
                    ray,
                    nearer,
                ) == cut(objects[i as int].first_hit(ray, inside), nearer.end) && (objects[i as int].first_hit(
                    ray,
                    nearer,
                ) matches Some(h) ==> nearer.holds(h.t)) by {
                    lemma_answer(objects[i as int], ray, asked, nearer);
                    lemma_answer(objects[i as int], ray, asked, inside);
                }
                match found {
                    None => {
                        assert(nearer == inside);
                        assert forall|i: usize| leaves(tree).contains(i) implies (#[trigger] objects[i as int].first_hit(
                            ray,
                            w,
                        )) is None by {
                            assert(objects[i as int].first_hit(ray, inside) is None);
                        }
                    },
                    Some(h) => {
                        if far is Some {
                            let j = choose|j: usize|
                                leaves(*right).contains(j) && objects[j as int].first_hit(
                                    ray,
                                    nearer,
                                ) == far;
                            assert(leaves(tree).contains(j));
                            assert(nearer.holds(h.t));
                            assert(objects[j as int].first_hit(ray, inside) == far);
                            assert(objects[j as int].first_hit(ray, w) == found);
                            assert forall|i: usize| leaves(tree).contains(i) implies (#[trigger] objects[i as int].first_hit(
                                ray,
                                w,
                            ) matches Some(o) ==> h.t <= o.t) by {
                                let o = objects[i as int].first_hit(ray, inside);
                                let c = objects[i as int].first_hit(ray, nearer);
                                if o is Some {
                                    if leaves(*right).contains(i) {
                                        assert(c == cut(o, nearer.end));
                                    } else {
                                        assert(leaves(*left).contains(i));
                                        assert(near is Some);
                                    }
                                }
                            }
                        } else {
                            assert forall|i: usize| leaves(tree).contains(i) implies (#[trigger] objects[i as int].first_hit(
                                ray,
                                w,
                            ) matches Some(o) ==> h.t <= o.t) by {
                                let o = objects[i as int].first_hit(ray, inside);
                                let c = objects[i as int].first_hit(ray, nearer);
                                if o is Some {
                                    if leaves(*left).contains(i) {
                                    } else {
                                        assert(leaves(*right).contains(i));
                                        assert(c is None);
                                        assert(c == cut(o, nearer.end));
                                    }
                                }
                            }
                        }
                    },
                }
            }
        },
    }
}

/// The leaves of a hierarchy are all of its objects.
pub proof fn lemma_leaves_are_all<T: Hit>(node: BvhNode<T>)
    requires
        node.wf(),
    ensures
        leaves(node.tree()) == firsts(node.objects().len() as int),
{
    let objects = node.objects();
    assert forall|i: usize| #[trigger] leaves(node.tree()).contains(i) implies i
        < objects.len() by {
        node.tree().lemma_encloses(objects, Tree::Leaf(i));
    }
    assert forall|i: usize| #[trigger] firsts(objects.len() as int).contains(i) implies leaves(
        node.tree(),
    ).contains(i) by {
        assert(node.tree().has_leaf(i));
    }
    assert(leaves(node.tree()) =~= firsts(objects.len() as int));
}

/// The traversal of a hierarchy finds the closest hit among all of its
/// objects in the window that it is asked for, where the objects answer
/// lawfully inside that window.
pub proof fn lemma_hierarchy_finds_closest<T: Hit>(
    node: BvhNode<T>,
    ray: &T::Ray,
    t_interval: Interval,
)
    requires
        node.wf(),
        lawful(node.objects(), ray, t_interval),
    ensures
        closest_among(
            node.objects(),
            firsts(node.objects().len() as int),
            ray,
            t_interval,
            node.first_hit(ray, t_interval),
        ),
        leaves(node.tree()) == firsts(node.objects().len() as int),
{
    let objects = node.objects();
    lemma_leaves_are_all(node);
    assert forall|i: usize| leaves(node.tree()).contains(i) implies (#[trigger] objects[i as int].first_hit(
        ray,
        t_interval,
    ) matches Some(h) ==> t_interval.start <= h.t) by {
        assert(searches(objects[i as int], ray, t_interval));
    }
    assert(admissible(objects, leaves(node.tree()), ray, t_interval, t_interval));
    lemma_tree_finds_closest(node.tree(), objects, ray, t_interval, t_interval);
}

/// A hierarchy and a scene over the same objects find hits at the same ray
/// parameter, or both find none; where no two objects tie, they find the
/// same hit, material and all. This holds in every window inside which the
/// objects answer the ray lawfully.
pub proof fn lemma_hierarchy_agrees_with_scan<T: Hit>(
    node: BvhNode<T>,
    scene: Scene<T>,
    ray: &T::Ray,
    t_interval: Interval,
)
    requires
        node.wf(),
        scene.objects() == node.objects(),
        lawful(node.objects(), ray, t_interval),
    ensures
        hit_t(node.first_hit(ray, t_interval)) == hit_t(scene.first_hit(ray, t_interval)),
        no_ties(node.objects(), ray, t_interval) ==> node.first_hit(ray, t_interval)
            == scene.first_hit(ray, t_interval),
{
    let objects = node.objects();
    lemma_hierarchy_finds_closest(node, ray, t_interval);
    lemma_scan_finds_closest(objects, ray, t_interval, objects.len() as int);
    lemma_closest_unique(
        objects,
        firsts(objects.len() as int),
        ray,
        t_interval,
        node.first_hit(ray, t_interval),
        scene.first_hit(ray, t_interval),
    );
}

} // verus!
