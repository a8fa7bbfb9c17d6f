//! Panorama positions.
//!
//! A position on the panorama sphere is a longitude/latitude pair that the
//! editing client produces and consumes as 32-bit floating-point degrees.
//! The editor itself never interprets the two numbers: it stores them and
//! hands them back. The library therefore carries each component as the raw
//! bit pattern of the client's 32-bit value, which round-trips exactly and
//! keeps the graph logic free of floating-point arithmetic.

use vstd::prelude::*;

verus! {

/// A 2D position on the panorama sphere: longitude and latitude, each held
/// as the bit pattern of the client's 32-bit floating-point degree value.
#[derive(Clone, Copy, Debug, PartialEq, Eq, Structural)]
pub struct Coordinates {
    /// Bit pattern of the longitude, in degrees.
    pub x_bits: u32,
    /// Bit pattern of the latitude, in degrees.
    pub y_bits: u32,
}

} // verus!
