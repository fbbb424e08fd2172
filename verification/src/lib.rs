//! The verified core of a small sphere ray tracer: colours with saturating
//! channels, the search for the nearest intersection along a ray, and the
//! pixel canvas that a rendered frame is written to.
//!
//! The arithmetic on real-valued vectors that produces intersections and
//! light intensities lives with the caller. What reaches this crate is already
//! discrete: channel bytes, pixel coordinates, and distances encoded as ordered
//! integers.

pub mod color;
pub mod canvas;
pub mod hit;
pub mod raster;
pub mod terminal;
