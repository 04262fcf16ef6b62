//! Closed variant sets for the geometric primitives a STEP-style exchange
//! file can reference, together with a sphere adapter that re-parametrizes a
//! canonical sphere into the exchange format's (longitude, latitude)
//! convention.
//!
//! Every floating-point quantity is carried as the `u64` bit pattern of an
//! IEEE-754 double. This library never performs floating-point arithmetic:
//! it owns the structural logic (variant dispatch, the coordinate remap
//! table, exact sign flips, encoding and decoding), while evaluation of the
//! canonical primitives is left to the caller, which resolves the remap
//! requests produced here with real arithmetic.
use vstd::prelude::*;

pub mod base;
pub mod codec;
pub mod curve;
pub mod sphere;
pub mod surface;

verus! {

/// A geometric element that has a canonical empty value.
pub trait Empty: Sized {
    fn empty() -> Self;
}

} // verus!
