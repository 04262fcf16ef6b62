//! The analytic sphere adapter.
//!
//! A canonical sphere (center, radius) is parametrized natively by
//! (p, q) with p the inclination in [0, pi] and q the longitude in
//! [0, 2 pi); the exchange format parametrizes the same sphere by
//! (u, v) with u the longitude in [0, 2 pi) and v the latitude in
//! [-pi/2, pi/2), related by p = pi/2 - v and q = u.
//!
//! The adapter's entire value is the remap: which native parameters to hand
//! the canonical sphere, which native derivative each requested derivative
//! is, and which results change sign under the chain rule. This module
//! states that table exactly. The single operation it cannot perform itself
//! is the real subtraction pi/2 - v, so every remapped angle is returned as
//! an [`Angle`], either a bit pattern taken as is or one whose complement
//! the caller must form with real arithmetic; everything else (axis swaps,
//! sign flips, window inversion, break-point reversal) is exact and proved.
use crate::base::{HALF_PI_BITS, NEG_HALF_PI_BITS, ParamBound, Point3, TWO_PI_BITS, ZERO_BITS};
use vstd::prelude::*;

verus! {

/// An angle handed to or received from the canonical sphere.
///
/// `Value(b)` is the double with bit pattern `b` itself; `ComplementOf(b)`
/// stands for `pi/2` minus that double, which the caller evaluating the
/// request computes with real arithmetic.
#[derive(Clone, Copy, Debug, PartialEq, Eq, Structural)]
pub enum Angle {
    Value(u64),
    ComplementOf(u64),
}

/// The canonical sphere operations, named by native parameters: `DerivP` is
/// the first derivative along the inclination axis, `DerivPQ` the mixed
/// second derivative, and so on.
#[derive(Clone, Copy, Debug, PartialEq, Eq, Structural)]
pub enum CanonOp {
    Position,
    DerivP,
    DerivQ,
    DerivPP,
    DerivPQ,
    DerivQQ,
    Normal,
}

/// One delegation to the canonical sphere: evaluate `op` at the native
/// parameters `(p, q)` and negate the resulting vector exactly when
/// `negate` holds.
#[derive(Clone, Copy, Debug, PartialEq, Eq, Structural)]
pub struct CanonRequest {
    pub op: CanonOp,
    pub p: Angle,
    pub q: Angle,
    pub negate: bool,
}

/// A sphere in the exchange format's (longitude, latitude) convention,
/// wrapping a canonical sphere given by center and radius.
#[derive(Clone, Copy, Debug, PartialEq, Eq, Structural)]
pub struct Sphere {
    pub center: Point3,
    pub radius: u64,
}

/// The native parameters for the exchange parameters `(u, v)`:
/// p = pi/2 - v and q = u.
pub open spec fn native_of(u: u64, v: u64) -> (Angle, Angle) {
    (Angle::ComplementOf(v), Angle::Value(u))
}

impl Sphere {
    pub fn new(center: Point3, radius: u64) -> (s: Self)
        ensures
            s == (Sphere { center, radius }),
    {
        Sphere { center, radius }
    }

    /// Position: delegate unchanged to the canonical sphere at the remapped
    /// parameters.
    pub fn subs(&self, u: u64, v: u64) -> (r: CanonRequest)
        ensures
            r == (CanonRequest {
                op: CanonOp::Position,
                p: native_of(u, v).0,
                q: native_of(u, v).1,
                negate: false,
            }),
    {
        CanonRequest {
            op: CanonOp::Position,
            p: Angle::ComplementOf(v),
            q: Angle::Value(u),
            negate: false,
        }
    }

    /// First derivative along u. Since q = u and p does not depend on u,
    /// the chain rule gives the native q-derivative, unnegated.
    pub fn uder(&self, u: u64, v: u64) -> (r: CanonRequest)
        ensures
            r == (CanonRequest {
                op: CanonOp::DerivQ,
                p: native_of(u, v).0,
                q: native_of(u, v).1,
                negate: false,
            }),
    {
        CanonRequest {
            op: CanonOp::DerivQ,
            p: Angle::ComplementOf(v),
            q: Angle::Value(u),
            negate: false,
        }
    }

    /// First derivative along v. Since p = pi/2 - v, the chain rule gives
    /// the native p-derivative times dp/dv = -1: negated.
    pub fn vder(&self, u: u64, v: u64) -> (r: CanonRequest)
        ensures
            r == (CanonRequest {
                op: CanonOp::DerivP,
                p: native_of(u, v).0,
                q: native_of(u, v).1,
                negate: true,
            }),
    {
        CanonRequest {
            op: CanonOp::DerivP,
            p: Angle::ComplementOf(v),
            q: Angle::Value(u),
            negate: true,
        }
    }

    /// Second derivative along u twice: the native qq-derivative, unnegated.
    pub fn uuder(&self, u: u64, v: u64) -> (r: CanonRequest)
        ensures
            r == (CanonRequest {
                op: CanonOp::DerivQQ,
                p: native_of(u, v).0,
                q: native_of(u, v).1,
                negate: false,
            }),
    {
        CanonRequest {
            op: CanonOp::DerivQQ,
            p: Angle::ComplementOf(v),
            q: Angle::Value(u),
            negate: false,
        }
    }

    /// Mixed second derivative: the native pq-derivative times dp/dv = -1.
    pub fn uvder(&self, u: u64, v: u64) -> (r: CanonRequest)
        ensures
            r == (CanonRequest {
                op: CanonOp::DerivPQ,
                p: native_of(u, v).0,
                q: native_of(u, v).1,
                negate: true,
            }),
    {
        CanonRequest {
            op: CanonOp::DerivPQ,
            p: Angle::ComplementOf(v),
            q: Angle::Value(u),
            negate: true,
        }
    }

    /// Second derivative along v twice: the native pp-derivative times
    /// (dp/dv)^2 = 1, unnegated.
    pub fn vvder(&self, u: u64, v: u64) -> (r: CanonRequest)
        ensures
            r == (CanonRequest {
                op: CanonOp::DerivPP,
                p: native_of(u, v).0,
                q: native_of(u, v).1,
                negate: false,
            }),
    {
        CanonRequest {
            op: CanonOp::DerivPP,
            p: Angle::ComplementOf(v),
            q: Angle::Value(u),
            negate: false,
        }
    }

    /// Outward normal: the remap preserves orientation, so the canonical
    /// normal is taken unnegated.
    pub fn normal(&self, u: u64, v: u64) -> (r: CanonRequest)
        ensures
            r == (CanonRequest {
                op: CanonOp::Normal,
                p: native_of(u, v).0,
                q: native_of(u, v).1,
                negate: false,
            }),
    {
        CanonRequest {
            op: CanonOp::Normal,
            p: Angle::ComplementOf(v),
            q: Angle::Value(u),
            negate: false,
        }
    }

    /// The declared domain: u is the longitude over [0, 2 pi), v the
    /// latitude over [-pi/2, pi/2), closed at the south pole and open at
    /// the north pole.
    pub fn parameter_range(&self) -> (r: ((ParamBound, ParamBound), (ParamBound, ParamBound)))
        ensures
            r == (
                (ParamBound::Inclusive(ZERO_BITS), ParamBound::Exclusive(TWO_PI_BITS)),
                (ParamBound::Inclusive(NEG_HALF_PI_BITS), ParamBound::Exclusive(HALF_PI_BITS)),
            ),
    {
        (
            (ParamBound::Inclusive(ZERO_BITS), ParamBound::Exclusive(TWO_PI_BITS)),
            (ParamBound::Inclusive(NEG_HALF_PI_BITS), ParamBound::Exclusive(HALF_PI_BITS)),
        )
    }

    /// The longitude axis is periodic with period 2 pi.
    pub fn u_period(&self) -> (r: Option<u64>)
        ensures
            r == Some(TWO_PI_BITS),
    {
        Some(TWO_PI_BITS)
    }

    /// The latitude axis is not periodic.
    pub fn v_period(&self) -> (r: Option<u64>)
        ensures
            r is None,
    {
        None
    }

    /// Maps a parameter pair returned by the canonical sphere's searches
    /// back to the exchange convention: u = q and v = pi/2 - p, the exact
    /// inverse of the forward substitution. An absent native result stays
    /// absent.
    pub fn search_result(&self, native: Option<(u64, u64)>) -> (r: Option<(u64, Angle)>)
        ensures
            match native {
                Some(pq) => r == Some((pq.1, Angle::ComplementOf(pq.0))),
                None => r is None,
            },
    {
        match native {
            Some((p, q)) => Some((q, Angle::ComplementOf(p))),
            None => None,
        }
    }

    /// Maps a subdivision window ((u0, u1), (v0, v1)) to the canonical
    /// window: the v-window is complemented and its ends swapped, so that
    /// it stays ascending (p = pi/2 - v decreases as v increases), and the
    /// u-window becomes the q-window unchanged.
    pub fn division_window(&self, window: ((u64, u64), (u64, u64))) -> (r: ((
        Angle,
        Angle,
    ), (Angle, Angle)))
        ensures
            r == (
                (Angle::ComplementOf(window.1.1), Angle::ComplementOf(window.1.0)),
                (Angle::Value(window.0.0), Angle::Value(window.0.1)),
            ),
    {
        let ((u0, u1), (v0, v1)) = window;
        ((Angle::ComplementOf(v1), Angle::ComplementOf(v0)), (Angle::Value(u0), Angle::Value(u1)))
    }

    /// Maps the canonical break points back to the exchange convention.
    /// The q-axis sequence becomes the u-axis sequence unchanged. Each
    /// p-break point maps to the latitude pi/2 - p, and since the canonical
    /// sequence ascends in p while the complement reverses order, the
    /// mapped sequence is reversed so that the v-axis sequence ascends too.
    pub fn division_breakpoints(&self, pdiv: Vec<u64>, qdiv: Vec<u64>) -> (r: (
        Vec<u64>,
        Vec<Angle>,
    ))
        ensures
            r.0@ == qdiv@,
            r.1@.len() == pdiv@.len(),
            forall|k: int|
                0 <= k < pdiv@.len() ==> r.1@[k] == Angle::ComplementOf(
                    pdiv@[pdiv@.len() - 1 - k],
                ),
    {
        let n = pdiv.len();
        let mut vdiv: Vec<Angle> = Vec::new();
        let mut k: usize = 0;
        while k < n
            invariant
                n == pdiv@.len(),
                k <= n,
                vdiv@.len() == k,
                forall|j: int|
                    0 <= j < k ==> vdiv@[j] == Angle::ComplementOf(pdiv@[pdiv@.len() - 1 - j]),
            decreases n - k,
        {
            vdiv.push(Angle::ComplementOf(pdiv[n - 1 - k]));
            k = k + 1;
        }
        (qdiv, vdiv)
    }
}

/// Ascending order of a sequence of idealized (exact, real-valued) angles,
/// here modelled over the integers, where the affine remap laws below hold
/// verbatim.
pub open spec fn ascending(s: Seq<int>) -> bool {
    forall|i: int, j: int| 0 <= i <= j < s.len() ==> s[i] <= s[j]
}

/// Law: the remap to the canonical convention and back is the identity.
/// With exact arithmetic, complementing twice returns the original
/// parameter, so a search seeded at parameters obtained from the forward
/// map lands back on them.
pub proof fn lemma_complement_involution(quarter: int, v: int)
    ensures
        quarter - (quarter - v) == v,
{
}

/// Law: the complement reverses order, so an ascending latitude window
/// (v0, v1) maps to the ascending canonical window (pi/2 - v1, pi/2 - v0)
/// with its ends swapped, as `division_window` swaps them.
pub proof fn lemma_complement_reverses_order(quarter: int, v0: int, v1: int)
    requires
        v0 <= v1,
    ensures
        quarter - v1 <= quarter - v0,
{
}

/// Law: complementing an ascending sequence point by point and reversing
/// it, exactly as `division_breakpoints` does, yields an ascending
/// sequence again.
pub proof fn lemma_reversed_complement_ascending(quarter: int, s: Seq<int>)
    requires
        ascending(s),
    ensures
        ascending(Seq::new(s.len(), |k: int| quarter - s[s.len() - 1 - k])),
{
    let m = Seq::new(s.len(), |k: int| quarter - s[s.len() - 1 - k]);
    assert forall|i: int, j: int| 0 <= i <= j < m.len() implies m[i] <= m[j] by {
        assert(s[s.len() - 1 - j] <= s[s.len() - 1 - i]);
    }
}

} // verus!
