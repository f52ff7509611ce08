//! The verified core of a Monte-Carlo path tracer.
//!
//! A path tracer estimates the light that reaches a camera by following
//! random light paths through a scene. This crate holds the part of that
//! work that is a matter of order and counting, and proves it with Verus:
//!
//! - the bounding-volume hierarchy over the objects of a scene, its
//!   construction and its traversal ([`hit::bvh`]), the linear scan over a
//!   flat list of objects ([`hit::scene`]), and the proof that both find the
//!   closest hit ([`hit::closest`]);
//! - ranges and axis-aligned boxes with the slab test ([`math`]);
//! - the decisions of the ray-sphere and ray-quad tests and of the
//!   materials ([`hit::sphere`], [`hit::quad`], [`material`]);
//! - the sampling schedule, the path integrator and the combining of the
//!   workers' images ([`camera`], [`image`]).
//!
//! The crate does no arithmetic on the quantities of a scene. It holds each
//! of them as a [`scalar::Scalar`], an integer that orders as the number it
//! stands for, and compares. The arithmetic of rays and surfaces belongs to
//! the caller, who supplies it by implementing [`hit::Hit`],
//! [`material::Material`], [`texture::Texture`] and
//! [`background::Background`], and by the functions that the camera's
//! methods take. The contracts say what the crate makes of the caller's
//! answers, whatever they are.
pub mod background;
pub mod camera;
pub mod color;
pub mod hit;
pub mod image;
pub mod material;
pub mod math;
pub mod scalar;
pub mod texture;
pub mod vec;
