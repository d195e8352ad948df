//! A verified 2D simulation core: clamped uniform cubic B-spline evaluation,
//! nearest-point projection, an inside/outside parity tracker for open curves,
//! and Verlet-integration collision resolution against such curves.
//!
//! All geometry is carried in fixed-point coordinates: an `i64` holds a world
//! coordinate multiplied by `num::SCALE`, so every operation is exact integer
//! arithmetic with explicit truncation, and every public function carries a
//! contract over that arithmetic.

pub mod num;
pub mod vec2;
pub mod knots;
pub mod spline;
pub mod curve;
pub mod topology;
pub mod nearest;
pub mod verlet;
pub mod resolve;
pub mod scene;
