//! Gravitational dynamics of point masses in the plane.
//!
//! A `World` holds bodies and settings. One step finds the force on every
//! body, exactly by summing over all others or approximately over a
//! `Quadtree`, and integrates each body under its force. Every quantity is a
//! value of a `Scalar` type; `Fixed` is one that is verified here, and a
//! program may bring its own, such as a wrapper of a floating-point type.
//!
//! The contracts name each result by a specification function over the
//! scalar's operations, so they say which operations are applied in which
//! order, and nothing of how the scalar rounds.
pub mod scalar;
pub mod fixed;
pub mod vector;
pub mod particle;
pub mod chunks;
pub mod world;
pub mod quadtree;
pub mod tree_laws;
pub mod scene;
