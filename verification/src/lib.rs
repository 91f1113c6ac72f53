//! The decision core of a small ray tracer.
//!
//! Every number of the scene is a binary64 value carried by its bit pattern
//! ([`scalar::Scalar`]).  The library owns the scene's data model and every
//! decision of the renderer: which candidate hit is the nearest, whether the
//! terms of an intersection test amount to a hit, how a pixel is shaded step
//! by step, and how a blended channel becomes a byte.  The arithmetic that
//! produces the numbers is the caller's.

pub mod color;
pub mod controls;
pub mod geometry;
pub mod ident;
pub mod intersect;
pub mod nearest;
pub mod objects;
pub mod scalar;
pub mod scene;
pub mod shading;
