//! Plain carriers for geometric data.
//!
//! Coordinates, radii and parameters are IEEE-754 double bit patterns held
//! in `u64` fields; this module also fixes the bit patterns of the angular
//! constants the parameter domains are built from.
use vstd::prelude::*;

verus! {

/// Bit pattern of the double `0.0`.
pub const ZERO_BITS: u64 = 0x0000_0000_0000_0000;
/// Bit pattern of the double `1.0`.
pub const ONE_BITS: u64 = 0x3FF0_0000_0000_0000;
/// Bit pattern of the double nearest `pi / 2`.
pub const HALF_PI_BITS: u64 = 0x3FF9_21FB_5444_2D18;
/// Bit pattern of the double nearest `-pi / 2`.
pub const NEG_HALF_PI_BITS: u64 = 0xBFF9_21FB_5444_2D18;
/// Bit pattern of the double nearest `pi`.
pub const PI_BITS: u64 = 0x4009_21FB_5444_2D18;
/// Bit pattern of the double nearest `2 * pi`.
pub const TWO_PI_BITS: u64 = 0x4019_21FB_5444_2D18;
/// The IEEE-754 double sign bit: flipping it negates the value exactly.
pub const SIGN_MASK: u64 = 0x8000_0000_0000_0000;

/// The bit pattern of the exact negation of the double with bit pattern `b`.
pub open spec fn negated_bits(b: u64) -> u64 {
    b ^ SIGN_MASK
}

/// A point or vector of the parameter plane.
#[derive(Clone, Copy, Debug, PartialEq, Eq, Structural)]
pub struct Point2 {
    pub x: u64,
    pub y: u64,
}

/// A point or vector of space.
#[derive(Clone, Copy, Debug, PartialEq, Eq, Structural)]
pub struct Point3 {
    pub x: u64,
    pub y: u64,
    pub z: u64,
}

/// A homogeneous point or four-component vector.
#[derive(Clone, Copy, Debug, PartialEq, Eq, Structural)]
pub struct Point4 {
    pub x: u64,
    pub y: u64,
    pub z: u64,
    pub w: u64,
}

/// A 3x3 placement transform, row by row.
#[derive(Clone, Copy, Debug, PartialEq, Eq, Structural)]
pub struct Matrix3 {
    pub r0: Point3,
    pub r1: Point3,
    pub r2: Point3,
}

/// A 4x4 placement transform, row by row.
#[derive(Clone, Copy, Debug, PartialEq, Eq, Structural)]
pub struct Matrix4 {
    pub r0: Point4,
    pub r1: Point4,
    pub r2: Point4,
    pub r3: Point4,
}

/// One end of a parameter interval: the boundary value is either part of the
/// domain or excluded from it.
#[derive(Clone, Copy, Debug, PartialEq, Eq, Structural)]
pub enum ParamBound {
    /// The double with this bit pattern, part of the domain.
    Inclusive(u64),
    /// The double with this bit pattern, excluded from the domain.
    Exclusive(u64),
    /// The double exactly equal to this integer, part of the domain; used
    /// where a bound is an index count rather than stored numeric data.
    InclusiveInt(usize),
}

/// Negates each component's bit pattern; exact, because IEEE-754 negation
/// only flips the sign bit.
pub fn negate_point3(v: Point3) -> (r: Point3)
    ensures
        r.x == negated_bits(v.x),
        r.y == negated_bits(v.y),
        r.z == negated_bits(v.z),
{
    Point3 { x: v.x ^ SIGN_MASK, y: v.y ^ SIGN_MASK, z: v.z ^ SIGN_MASK }
}

} // verus!
