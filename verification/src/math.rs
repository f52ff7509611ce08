//! Ranges and boxes of scalars, and the lattice of the gradient noise.
pub mod aabb;
pub mod interval;
pub mod perlin;
