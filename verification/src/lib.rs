//! A homogeneous-coordinate tuple algebra over scaled fixed-point numbers.
//!
//! A `Tuple` holds four coordinates (x, y, z, w), each a real number stored
//! as an `i64` in raw units of 1/1_000_000.  A w of exactly one marks a
//! point in space, a w of zero marks a vector (a direction or displacement).
//! The algebra offers the arithmetic a 3D geometry or physics system needs:
//! addition, subtraction, negation, scaling, magnitude, normalization, dot
//! and cross product, together with an approximate equality that absorbs
//! the rounding of the scaled arithmetic.

pub mod fixed;
pub mod tuple;
pub mod projectile;
pub mod laws;
