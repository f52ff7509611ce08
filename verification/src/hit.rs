//! The intersection protocol: what a piece of geometry answers to a ray.
use vstd::prelude::*;
use crate::math::aabb::Aabb;
use crate::math::interval::Interval;
use crate::scalar::Scalar;
use crate::vec::Vec3;

pub mod bvh;
pub mod closest;
pub mod quad;
pub mod scene;
pub mod sphere;

verus! {

/// Where a ray met a surface.
pub struct HitResult<M> {
    /// The ray parameter of the meeting point.
    pub t: Scalar,
    /// The surface coordinates of the meeting point.
    pub u: Scalar,
    pub v: Scalar,
    /// The meeting point.
    pub point: Vec3,
    /// The surface normal there, turned against the incoming ray.
    pub normal: Vec3,
    /// The material of the surface.
    pub material: M,
    /// Whether the ray came from the side that the surface's own normal
    /// points to.
    pub front_face: bool,
}

impl<M> HitResult<M> {
    /// Builds the record of a hit. `alignment` is the dot product of the
    /// ray's direction with `outward_normal`. The hit is on the front face
    /// where that product is below zero; on the back face the stored normal
    /// is the reverse of `outward_normal`, so that it always points against
    /// the ray.
    pub fn new(
        alignment: Scalar,
        t: Scalar,
        u: Scalar,
        v: Scalar,
        point: Vec3,
        outward_normal: Vec3,
        material: M,
    ) -> (r: Self)
        ensures
            r.front_face == (alignment < 0),
            r.normal == if alignment < 0 {
                outward_normal
            } else {
                outward_normal.reversed()
            },
            r.t == t,
            r.u == u,
            r.v == v,
            r.point == point,
            r.material == material,
    {
        let front_face: bool = alignment < 0;
        HitResult {
            t,
            u,
            v,
            point,
            normal: if front_face {
                outward_normal
            } else {
                outward_normal.negate()
            },
            material,
            front_face,
        }
    }
}

/// The ray parameter of a hit, if there is one.
pub open spec fn hit_t<M>(h: Option<HitResult<M>>) -> Option<Scalar> {
    match h {
        Some(h) => Some(h.t),
        None => None,
    }
}

/// The far end of the window in which a hit closer than `found` is looked
/// for: the parameter of `found`, or `end` where nothing was found yet.
pub open spec fn closer_than<M>(found: Option<HitResult<M>>, end: Scalar) -> Scalar {
    match found {
        Some(h) => h.t,
        None => end,
    }
}

/// Geometry that a ray can hit.
///
/// The arithmetic of rays and surfaces belongs to the implementation; the
/// library asks for its results and compares them. The specification
/// functions are the model of an implementation: what its methods return, as
/// functions of their arguments. Code that is compiled without being
/// verified sees them as plain methods, and gives each the body of the
/// method that it models.
pub trait Hit {
    /// The rays that this geometry is tested against.
    type Ray;

    /// What a hit carries as its material.
    type Material;

    /// The box that encloses the geometry.
    spec fn bounds(&self) -> Aabb;

    /// The ray parameter at which `ray` meets the plane whose coordinate on
    /// `axis` is `plane`; `None` where that parameter is not a number. The
    /// model of [`Hit::plane`].
    spec fn meets(ray: &Self::Ray, axis: u32, plane: Scalar) -> Option<Scalar>;

    /// Whether `ray` runs towards smaller coordinates on `axis`. The model
    /// of [`Hit::backwards`].
    spec fn descends(ray: &Self::Ray, axis: u32) -> bool;

    /// What `hit` returns.
    spec fn first_hit(&self, ray: &Self::Ray, t_interval: Interval) -> Option<
        HitResult<Self::Material>,
    >;

    /// The closest point at which `ray` meets the geometry with a parameter
    /// inside `t_interval`, or `None` where there is none.
    fn hit(&self, ray: &Self::Ray, t_interval: Interval) -> (r: Option<HitResult<Self::Material>>)
        ensures
            r == self.first_hit(ray, t_interval),
            r matches Some(h) ==> t_interval.holds(h.t),
    ;

    /// The box that encloses the geometry.
    fn bounding_box(&self) -> (r: &Aabb)
        ensures
            *r == self.bounds(),
    ;

    /// The ray parameter at which `ray` meets the plane whose coordinate on
    /// `axis` is `plane`; `None` where that parameter is not a number.
    fn plane(ray: &Self::Ray, axis: u32, plane: Scalar) -> (t: Option<Scalar>)
        requires
            axis < 3,
        ensures
            t == Self::meets(ray, axis, plane),
    ;

    /// Whether `ray` runs towards smaller coordinates on `axis`.
    fn backwards(ray: &Self::Ray, axis: u32) -> (b: bool)
        requires
            axis < 3,
        ensures
            b == Self::descends(ray, axis),
    ;
}

} // verus!
