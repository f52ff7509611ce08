//! The bounding-volume hierarchy: a binary tree of boxes over a list of
//! geometry, which lets a ray skip whole groups of objects.
use rand::Rng;
use vstd::prelude::*;
use crate::hit::closest::{
    answered, closest_among, firsts, lawful, leaves, lemma_hierarchy_finds_closest,
    lemma_leaves_are_all,
};
use crate::hit::{closer_than, Hit, HitResult};
use crate::math::aabb::Aabb;
use crate::math::interval::Interval;
use crate::scalar::Scalar;

verus! {

/// The shape of a hierarchy. A leaf names an object by its place in the list
/// that the hierarchy was built over; an inner node has two children and the
/// box that encloses both.
pub enum Tree {
    Leaf(usize),
    Node { left: Box<Tree>, right: Box<Tree>, bounding_box: Aabb },
}

impl Tree {
    /// The box of the tree: that of the object for a leaf, the stored one for
    /// an inner node.
    pub open spec fn bounds<T: Hit>(self, objects: Seq<T>) -> Aabb {
        match self {
            Tree::Leaf(i) => objects[i as int].bounds(),
            Tree::Node { bounding_box, .. } => bounding_box,
        }
    }

    /// Whether every leaf names an object of the list and every inner node's
    /// box is the hull of its children's boxes.
    pub open spec fn wf<T: Hit>(self, objects: Seq<T>) -> bool
        decreases self,
    {
        match self {
            Tree::Leaf(i) => i < objects.len(),
            Tree::Node { left, right, bounding_box } => {
                &&& left.wf(objects)
                &&& right.wf(objects)
                &&& bounding_box == left.bounds(objects).hull(right.bounds(objects))
            },
        }
    }

    /// Whether `part` is this tree or a tree below it.
    pub open spec fn has_subtree(self, part: Tree) -> bool
        decreases self,
    {
        self == part || match self {
            Tree::Leaf(_) => false,
            Tree::Node { left, right, .. } => left.has_subtree(part) || right.has_subtree(part),
        }
    }

    /// Whether object `i` is a leaf of the tree.
    pub open spec fn has_leaf(self, i: usize) -> bool {
        self.has_subtree(Tree::Leaf(i))
    }

    /// The leaves of the tree, from left to right.
    pub open spec fn fringe(self) -> Seq<usize>
        decreases self,
    {
        match self {
            Tree::Leaf(i) => seq![i],
            Tree::Node { left, right, .. } => left.fringe() + right.fringe(),
        }
    }

    /// The box of a well-formed tree encloses the box of every tree below
    /// it, and every tree below it is well-formed.
    pub proof fn lemma_encloses<T: Hit>(self, objects: Seq<T>, part: Tree)
        requires
            self.wf(objects),
            self.has_subtree(part),
        ensures
            self.bounds(objects).covers(part.bounds(objects)),
            part.wf(objects),
        decreases self,
    {
        if self != part {
            match self {
                Tree::Leaf(_) => {},
                Tree::Node { left, right, .. } => {
                    if left.has_subtree(part) {
                        left.lemma_encloses(objects, part);
                    } else {
                        right.lemma_encloses(objects, part);
                    }
                },
            }
        }
    }

    /// What the traversal of the tree finds. At an inner node the window is
    /// first put through the slab test of the node's box; where nothing is
    /// left the node has no hit. Else the left child is searched in the
    /// window that is left, then the right child in that window cut off at
    /// the left child's hit; the right child's hit wins where it has one.
    pub open spec fn first_hit<T: Hit>(
        self,
        objects: Seq<T>,
        ray: &T::Ray,
        window: Interval,
    ) -> Option<HitResult<T::Material>>
        decreases self,
    {
        match self {
            Tree::Leaf(i) => objects[i as int].first_hit(ray, window),
            Tree::Node { left, right, bounding_box } => {
                let inside = bounding_box.swept::<T>(ray, window);
                if inside.empty() {
                    None
                } else {
                    let near = left.first_hit(objects, ray, inside);
                    let far = right.first_hit(
                        objects,
                        ray,
                        Interval { start: inside.start, end: closer_than(near, inside.end) },
                    );
                    if far is Some {
                        far
                    } else {
                        near
                    }
                }
            },
        }
    }
}

/// The coordinate by which object `i` is ordered on `axis`: the start of its
/// box there.
pub open spec fn start_on<T: Hit>(objects: Seq<T>, i: usize, axis: u32) -> Scalar {
    objects[i as int].bounds().side(axis as int).start
}

/// Whether the objects that `order` names come by rising start on `axis`.
pub open spec fn ordered_on<T: Hit>(objects: Seq<T>, order: Seq<usize>, axis: u32) -> bool {
    forall|a: int, b: int|
        0 <= a <= b < order.len() ==> start_on(objects, order[a], axis) <= start_on(
            objects,
            order[b],
            axis,
        )
}

/// Whether `order` is `ids` sorted on `axis`.
pub open spec fn sorts<T: Hit>(objects: Seq<T>, ids: Seq<usize>, axis: u32, order: Seq<usize>) -> bool {
    &&& axis < 3
    &&& order.to_multiset() == ids.to_multiset()
    &&& ordered_on(objects, order, axis)
}

/// The two objects of `ids` as a node over them holds them on `axis`: the
/// first stands left only where its start is below that of the second.
pub open spec fn pair_on<T: Hit>(objects: Seq<T>, ids: Seq<usize>, axis: u32) -> (usize, usize) {
    if start_on(objects, ids[0], axis) < start_on(objects, ids[1], axis) {
        (ids[0], ids[1])
    } else {
        (ids[1], ids[0])
    }
}

/// The order of pairs of a key and an index: by key, then by index.
pub open spec fn pair_le(a: (Scalar, usize), b: (Scalar, usize)) -> bool {
    a.0 < b.0 || (a.0 == b.0 && a.1 <= b.1)
}

impl Tree {
    /// Whether the tree is one that the construction can give for the
    /// objects that `ids` names. Over one object both children are that
    /// object. Over two, the children are the two objects, ordered on some
    /// axis. Over more, the objects are sorted on some axis, the first half
    /// by count (rounded down) goes to the left child and the rest to the
    /// right child, and both children are built in the same way. Each node
    /// may use another axis. The node's box is the hull of its children's.
    pub open spec fn grown<T: Hit>(self, objects: Seq<T>, ids: Seq<usize>) -> bool
        decreases self,
    {
        match self {
            Tree::Leaf(_) => false,
            Tree::Node { left, right, bounding_box } => {
                &&& bounding_box == left.bounds(objects).hull(right.bounds(objects))
                &&& if ids.len() == 1 {
                    *left == Tree::Leaf(ids[0]) && *right == Tree::Leaf(ids[0])
                } else if ids.len() == 2 {
                    exists|axis: u32|
                        axis < 3 && *left == Tree::Leaf(
                            (#[trigger] pair_on(objects, ids, axis)).0,
                        ) && *right == Tree::Leaf(pair_on(objects, ids, axis).1)
                } else {
                    ids.len() > 2 && exists|axis: u32, order: Seq<usize>|
                        #[trigger] sorts(objects, ids, axis, order) && left.grown(
                            objects,
                            order.subrange(0, ids.len() as int / 2),
                        ) && right.grown(
                            objects,
                            order.subrange(ids.len() as int / 2, ids.len() as int),
                        )
                }
            },
        }
    }
}

/// Why no hierarchy could be built.
#[derive(Debug, PartialEq, Eq)]
pub enum BvhError {
    /// There was no object to build it over.
    Empty,
}

/// Draws the axis on which a node orders its objects, with
/// `rand::thread_rng().gen_range(0..3)`. The range is not empty, so the call
/// does not panic on it, and what it returns lies in the range: 0, 1 or 2.
/// Which of them is left open.
#[verifier::external_body]
fn random_axis() -> (axis: u32)
    ensures
        axis < 3,
{
    rand::thread_rng().gen_range(0..3)
}

/// Sorts pairs of a key and an index with `sort_unstable` of std's slices.
/// The slice afterwards holds what it held before, in the order of tuples:
/// by key, and by index among equal keys.
#[verifier::external_body]
fn sort_pairs(pairs: &mut Vec<(Scalar, usize)>)
    ensures
        final(pairs)@.to_multiset() == old(pairs)@.to_multiset(),
        forall|a: int, b: int|
            0 <= a <= b < final(pairs)@.len() ==> pair_le(final(pairs)@[a], final(pairs)@[b]),
{
    pairs.sort_unstable();
}

/// Two lists without repetitions that hold the same items are permutations
/// of each other.
proof fn lemma_same_items<A>(a: Seq<A>, b: Seq<A>)
    requires
        a.no_duplicates(),
        b.no_duplicates(),
        forall|x: A| a.contains(x) <==> b.contains(x),
    ensures
        a.to_multiset() == b.to_multiset(),
{
    a.lemma_multiset_has_no_duplicates();
    b.lemma_multiset_has_no_duplicates();
    assert forall|x: A| a.to_multiset().count(x) == b.to_multiset().count(x) by {
        vstd::seq_lib::to_multiset_contains(a, x);
        vstd::seq_lib::to_multiset_contains(b, x);
    }
    assert(a.to_multiset() =~= b.to_multiset());
}

/// A bounding-volume hierarchy over a list of objects.
pub struct BvhNode<T: Hit> {
    objects: Vec<T>,
    tree: Tree,
}

impl<T: Hit> BvhNode<T> {
    /// The objects, in the order in which they were given.
    pub closed spec fn objects(&self) -> Seq<T> {
        self.objects@
    }

    /// The shape of the hierarchy.
    pub closed spec fn tree(&self) -> Tree {
        self.tree
    }

    /// What holds of every hierarchy: its objects can be counted, its root
    /// is an inner node, its tree is well-formed over its objects, and every
    /// object is a leaf of it.
    pub open spec fn wf(&self) -> bool {
        &&& self.objects().len() <= usize::MAX
        &&& self.tree() is Node
        &&& self.tree().wf(self.objects())
        &&& forall|i: usize| i < self.objects().len() ==> self.tree().has_leaf(i)
    }

    #[verifier::type_invariant]
    closed spec fn inv(&self) -> bool {
        self.wf()
    }

    /// The box of a hierarchy encloses the box of every inner node and of
    /// every object.
    pub proof fn lemma_encloses(self, part: Tree)
        requires
            self.wf(),
            self.tree().has_subtree(part),
        ensures
            self.bounds().covers(part.bounds(self.objects())),
    {
        self.tree().lemma_encloses(self.objects(), part);
    }

    /// The box of a hierarchy encloses the box of each of its objects.
    pub proof fn lemma_encloses_object(self, i: usize)
        requires
            self.wf(),
            i < self.objects().len(),
        ensures
            self.bounds().covers(self.objects()[i as int].bounds()),
    {
        assert(self.tree().has_leaf(i));
        self.tree().lemma_encloses(self.objects(), Tree::Leaf(i));
    }

    /// Builds a hierarchy over `objects`, which must not be empty.
    ///
    /// Each node draws an axis at random; see [`Tree::grown`] for the trees
    /// that can come out. Whatever is drawn, the hierarchy holds the objects
    /// in the order given, and every object is a leaf of it.
    pub fn new(objects: Vec<T>) -> (r: Result<Self, BvhError>)
        ensures
            objects@.len() == 0 <==> r is Err,
            r matches Ok(node) ==> {
                &&& node.wf()
                &&& node.objects() == objects@
                &&& node.tree().grown(objects@, Seq::new(objects@.len(), |i: int| i as usize))
            },
    {
        if objects.len() == 0 {
            return Err(BvhError::Empty);
        }
        let mut ids: Vec<usize> = Vec::new();
        let mut i: usize = 0;
        while i < objects.len()
            invariant
                i <= objects.len(),
                ids@ == Seq::new(i as nat, |i: int| i as usize),
            decreases objects.len() - i,
        {
            ids.push(i);
            assert(ids@ =~= Seq::new((i + 1) as nat, |i: int| i as usize));
            i = i + 1;
        }
        let tree = Self::grow(&objects, ids);
        proof {
            assert forall|i: usize| i < objects@.len() implies tree.has_leaf(i) by {
                assert(ids@[i as int] == i);
            }
        }
        Ok(BvhNode { objects, tree })
    }

    /// The number of objects.
    pub fn len(&self) -> (r: usize)
        ensures
            r == self.objects().len(),
    {
        self.objects.len()
    }

    /// The leaves of the hierarchy from left to right, each named by the
    /// place of its object in the list that the hierarchy was built over.
    pub fn leaves(&self) -> (r: Vec<usize>)
        ensures
            r@ == self.tree().fringe(),
    {
        let mut r: Vec<usize> = Vec::new();
        Self::collect(&self.tree, &mut r);
        r
    }

    /// Appends the leaves of `tree` to `out`.
    fn collect(tree: &Tree, out: &mut Vec<usize>)
        ensures
            final(out)@ == old(out)@ + tree.fringe(),
        decreases tree,
    {
        match tree {
            Tree::Leaf(i) => {
                out.push(*i);
                assert(out@ =~= old(out)@ + tree.fringe());
            },
            Tree::Node { left, right, .. } => {
                Self::collect(left, out);
                Self::collect(right, out);
                assert(out@ =~= old(out)@ + tree.fringe());
            },
        }
    }

    /// The start of the box of object `i` on `axis`.
    fn start_of(objects: &Vec<T>, i: usize, axis: u32) -> (k: Scalar)
        requires
            i < objects@.len(),
            axis < 3,
        ensures
            k == start_on(objects@, i, axis),
    {
        objects[i].bounding_box().axis(axis).start()
    }

    /// The objects that `ids` names, sorted by the start of their boxes on
    /// `axis`.
    fn order_by_start(objects: &Vec<T>, ids: &Vec<usize>, axis: u32) -> (order: Vec<usize>)
        requires
            axis < 3,
            ids@.no_duplicates(),
            forall|k: int| 0 <= k < ids@.len() ==> ids@[k] < objects@.len(),
        ensures
            sorts(objects@, ids@, axis, order@),
            order@.no_duplicates(),
            order@.len() == ids@.len(),
    {
        let mut pairs: Vec<(Scalar, usize)> = Vec::new();
        let mut k: usize = 0;
        while k < ids.len()
            invariant
                k <= ids@.len(),
                axis < 3,
                pairs@.len() == k,
                forall|j: int| 0 <= j < ids@.len() ==> ids@[j] < objects@.len(),
                forall|j: int|
                    0 <= j < k ==> pairs@[j] == (start_on(objects@, ids@[j], axis), ids@[j]),
            decreases ids@.len() - k,
        {
            pairs.push((Self::start_of(objects, ids[k], axis), ids[k]));
            k = k + 1;
        }
        let ghost unsorted = pairs@;
        proof {
            assert forall|a: int, b: int|
                0 <= a < unsorted.len() && 0 <= b < unsorted.len() && a != b implies unsorted[a]
                != unsorted[b] by {
                assert(ids@[a] != ids@[b]);
            }
            unsorted.lemma_multiset_has_no_duplicates();
        }
        sort_pairs(&mut pairs);
        proof {
            pairs@.lemma_multiset_has_no_duplicates_conv();
            vstd::seq_lib::to_multiset_len(pairs@);
            vstd::seq_lib::to_multiset_len(unsorted);
            assert forall|j: int| 0 <= j < pairs@.len() implies unsorted.contains(
                #[trigger] pairs@[j],
            ) by {
                vstd::seq_lib::to_multiset_contains(pairs@, pairs@[j]);
                vstd::seq_lib::to_multiset_contains(unsorted, pairs@[j]);
            }
            assert forall|j: int| 0 <= j < unsorted.len() implies pairs@.contains(
                #[trigger] unsorted[j],
            ) by {
                vstd::seq_lib::to_multiset_contains(pairs@, unsorted[j]);
                vstd::seq_lib::to_multiset_contains(unsorted, unsorted[j]);
            }
        }
        let mut order: Vec<usize> = Vec::new();
        let mut k: usize = 0;
        while k < pairs.len()
            invariant
                k <= pairs@.len(),
                order@.len() == k,
                forall|j: int| 0 <= j < k ==> order@[j] == pairs@[j].1,
            decreases pairs@.len() - k,
        {
            order.push(pairs[k].1);
            k = k + 1;
        }
        proof {
            assert forall|j: int| 0 <= j < order@.len() implies ids@.contains(
                #[trigger] order@[j],
            ) && pairs@[j].0 == start_on(objects@, order@[j], axis) by {
                let at = choose|at: int| 0 <= at < unsorted.len() && unsorted[at] == pairs@[j];
                assert(ids@[at] == order@[j]);
            }
            assert forall|a: int, b: int|
                0 <= a < order@.len() && 0 <= b < order@.len() && a != b implies order@[a]
                != order@[b] by {
                assert(pairs@[a] != pairs@[b]);
            }
            assert forall|x: usize| ids@.contains(x) implies order@.contains(x) by {
                let at = choose|at: int| 0 <= at < ids@.len() && ids@[at] == x;
                let to = choose|to: int| 0 <= to < pairs@.len() && pairs@[to] == unsorted[at];
                assert(order@[to] == x);
            }
            lemma_same_items(order@, ids@);
            assert forall|a: int, b: int| 0 <= a <= b < order@.len() implies start_on(
                objects@,
                order@[a],
                axis,
            ) <= start_on(objects@, order@[b], axis) by {
                assert(pair_le(pairs@[a], pairs@[b]));
            }
        }
        order
    }

    /// Builds the tree over the objects that `ids` names.
    fn grow(objects: &Vec<T>, ids: Vec<usize>) -> (tree: Tree)
        requires
            ids@.len() > 0,
            ids@.no_duplicates(),
            forall|k: int| 0 <= k < ids@.len() ==> ids@[k] < objects@.len(),
        ensures
            tree is Node,
            tree.wf(objects@),
            tree.grown(objects@, ids@),
            forall|k: int| 0 <= k < ids@.len() ==> tree.has_leaf(#[trigger] ids@[k]),
        decreases ids@.len(),
    {
        let axis: u32 = random_axis();
        let left: Tree;
        let right: Tree;
        if ids.len() == 1 {
            left = Tree::Leaf(ids[0]);
            right = Tree::Leaf(ids[0]);
            assert(left.has_leaf(ids@[0]));
        } else if ids.len() == 2 {
            let first: usize = ids[0];
            let second: usize = ids[1];
            if Self::start_of(objects, first, axis) < Self::start_of(objects, second, axis) {
                left = Tree::Leaf(first);
                right = Tree::Leaf(second);
            } else {
                left = Tree::Leaf(second);
                right = Tree::Leaf(first);
            }
            assert(left == Tree::Leaf(pair_on(objects@, ids@, axis).0));
            assert(right == Tree::Leaf(pair_on(objects@, ids@, axis).1));
            assert(left.has_leaf(first) || right.has_leaf(first));
            assert(left.has_leaf(second) || right.has_leaf(second));
        } else {
            let mut order = Self::order_by_start(objects, &ids, axis);
            let ghost sorted = order@;
            proof {
                assert forall|k: int| 0 <= k < sorted.len() implies ids@.contains(
                    #[trigger] sorted[k],
                ) by {
                    vstd::seq_lib::to_multiset_contains(sorted, sorted[k]);
                    vstd::seq_lib::to_multiset_contains(ids@, sorted[k]);
                }
            }
            let rest = order.split_off(order.len() / 2);
            right = Self::grow(objects, rest);
            left = Self::grow(objects, order);
            proof {
                assert(sorts(objects@, ids@, axis, sorted));
                assert forall|k: int| 0 <= k < ids@.len() implies left.has_leaf(
                    #[trigger] ids@[k],
                ) || right.has_leaf(ids@[k]) by {
                    vstd::seq_lib::to_multiset_contains(sorted, ids@[k]);
                    vstd::seq_lib::to_multiset_contains(ids@, ids@[k]);
                    let at = choose|at: int| 0 <= at < sorted.len() && sorted[at] == ids@[k];
                    if at < sorted.len() / 2 {
                        assert(order@[at] == sorted[at]);
                    } else {
                        assert(rest@[at - sorted.len() / 2] == sorted[at]);
                    }
                }
            }
        }
        assert(left.wf(objects@) && right.wf(objects@));
        assert(forall|k: int|
            0 <= k < ids@.len() ==> left.has_leaf(#[trigger] ids@[k]) || right.has_leaf(ids@[k]));
        let bounding_box = Self::bounds_of(objects, &left).combined(Self::bounds_of(objects, &right));
        let tree = Tree::Node { left: Box::new(left), right: Box::new(right), bounding_box };
        assert(tree.wf(objects@));
        assert forall|k: int| 0 <= k < ids@.len() implies tree.has_leaf(#[trigger] ids@[k]) by {
            assert(left.has_subtree(Tree::Leaf(ids@[k])) || right.has_subtree(
                Tree::Leaf(ids@[k]),
            ));
        }
        tree
    }

    /// The box of a tree.
    fn bounds_of<'a>(objects: &'a Vec<T>, tree: &'a Tree) -> (r: &'a Aabb)
        requires
            tree.wf(objects@),
        ensures
            *r == tree.bounds(objects@),
    {
        match tree {
            Tree::Leaf(i) => objects[*i].bounding_box(),
            Tree::Node { bounding_box, .. } => bounding_box,
        }
    }

    fn hit_tree(&self, tree: &Tree, ray: &T::Ray, window: Interval) -> (r: Option<
        HitResult<T::Material>,
    >)
        requires
            tree.wf(self.objects@),
        ensures
            r == tree.first_hit(self.objects@, ray, window),
            r matches Some(h) ==> window.holds(h.t),
            answered(self.objects@, leaves(*tree), ray, window, r),
        decreases tree,
    {
        match tree {
            Tree::Leaf(i) => {
                let found = self.objects[*i].hit(ray, window);
                assert(leaves(*tree).contains(*i) && window.covers(window)
                    && self.objects@[*i as int].first_hit(ray, window) == found);
                found
            },
            Tree::Node { left, right, bounding_box } => {
                let mut inside: Interval = window;
                if !bounding_box.hit::<T>(ray, &mut inside) {
                    return None;
                }
                let near = self.hit_tree(left, ray, inside);
                let end: Scalar = match &near {
                    Some(h) => h.t,
                    None => inside.end(),
                };
                let nearer = Interval::new(inside.start(), end);
                let far = self.hit_tree(right, ray, nearer);
                if far.is_some() {
                    proof {
                        let (i, inner) = choose|i: usize, inner: Interval|
                            leaves(**right).contains(i) && nearer.covers(inner)
                                && #[trigger] self.objects@[i as int].first_hit(ray, inner) == far;
                        assert(leaves(*tree).contains(i) && window.covers(inner)
                            && self.objects@[i as int].first_hit(ray, inner) == far);
                    }
                    far
                } else {
                    proof {
                        if near is Some {
                            let (i, inner) = choose|i: usize, inner: Interval|
                                leaves(**left).contains(i) && inside.covers(inner)
                                    && #[trigger] self.objects@[i as int].first_hit(ray, inner)
                                    == near;
                            assert(leaves(*tree).contains(i) && window.covers(inner)
                                && self.objects@[i as int].first_hit(ray, inner) == near);
                        }
                    }
                    near
                }
            },
        }
    }
}

impl<T: Hit> Hit for BvhNode<T> {
    type Ray = T::Ray;

    type Material = T::Material;

    open spec fn bounds(&self) -> Aabb {
        self.tree().bounds(self.objects())
    }

    open spec fn first_hit(&self, ray: &T::Ray, t_interval: Interval) -> Option<
        HitResult<T::Material>,
    > {
        self.tree().first_hit(self.objects(), ray, t_interval)
    }

    /// Traverses the hierarchy; see [`Tree::first_hit`]. What it finds is
    /// what one of the objects finds in a window inside `t_interval`: so it
    /// finds nothing where no object is hit in any such window. Where the
    /// objects answer the ray lawfully inside `t_interval`, what it finds is
    /// the closest hit among all objects.
    fn hit(&self, ray: &T::Ray, t_interval: Interval) -> (r: Option<HitResult<T::Material>>)
        ensures
            answered(
                self.objects(),
                firsts(self.objects().len() as int),
                ray,
                t_interval,
                r,
            ),
            lawful(self.objects(), ray, t_interval) ==> closest_among(
                self.objects(),
                firsts(self.objects().len() as int),
                ray,
                t_interval,
                r,
            ),
    {
        proof {
            use_type_invariant(self);
            lemma_leaves_are_all(*self);
            if lawful(self.objects(), ray, t_interval) {
                lemma_hierarchy_finds_closest(*self, ray, t_interval);
            }
        }
        self.hit_tree(&self.tree, ray, t_interval)
    }

    fn bounding_box(&self) -> (r: &Aabb) {
        proof {
            use_type_invariant(self);
        }
        match &self.tree {
            Tree::Leaf(i) => self.objects[*i].bounding_box(),
            Tree::Node { bounding_box, .. } => bounding_box,
        }
    }

    open spec fn meets(ray: &T::Ray, axis: u32, plane: Scalar) -> Option<Scalar> {
        T::meets(ray, axis, plane)
    }

    open spec fn descends(ray: &T::Ray, axis: u32) -> bool {
        T::descends(ray, axis)
    }

    fn plane(ray: &T::Ray, axis: u32, plane: Scalar) -> (t: Option<Scalar>) {
        T::plane(ray, axis, plane)
    }

    fn backwards(ray: &T::Ray, axis: u32) -> (b: bool) {
        T::backwards(ray, axis)
    }
}

} // verus!
