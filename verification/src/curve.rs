//! The closed curve categories of the exchange format.
//!
//! Each category is a tagged union with exactly one active payload; the
//! payloads carry the numeric data of the underlying primitives as IEEE-754
//! bit patterns. A trimmed conic is the unit conic composed with an affine
//! placement, restricted to a parameter interval, with an orientation flag
//! recording whether the parametrization sense has been reversed.
use crate::base::{Matrix3, Matrix4, ParamBound, Point2, Point3, Point4, ONE_BITS, ZERO_BITS};
use vstd::prelude::*;

verus! {

/// A trimmed unit conic in the plane, composed with a 3x3 placement.
#[derive(Clone, Copy, Debug, PartialEq, Eq, Structural)]
pub struct ConicArc2 {
    pub t0: u64,
    pub t1: u64,
    pub placement: Matrix3,
    pub orientation: bool,
}

/// A trimmed unit conic in space, composed with a 4x4 placement.
#[derive(Clone, Copy, Debug, PartialEq, Eq, Structural)]
pub struct ConicArc3 {
    pub t0: u64,
    pub t1: u64,
    pub placement: Matrix4,
    pub orientation: bool,
}

/// A line segment, parametrized from `a` at 0 to `b` at 1.
#[derive(Clone, Copy, Debug, PartialEq, Eq, Structural)]
pub struct Line2 {
    pub a: Point2,
    pub b: Point2,
}

/// A line segment in space, parametrized from `a` at 0 to `b` at 1.
#[derive(Clone, Copy, Debug, PartialEq, Eq, Structural)]
pub struct Line3 {
    pub a: Point3,
    pub b: Point3,
}

/// A polyline, parametrized so that vertex `k` sits at parameter `k`.
#[derive(Clone, Debug, PartialEq, Eq)]
pub struct Polyline2 {
    pub points: Vec<Point2>,
}

/// A polyline in space, parametrized so that vertex `k` sits at parameter `k`.
#[derive(Clone, Debug, PartialEq, Eq)]
pub struct Polyline3 {
    pub points: Vec<Point3>,
}

/// A free-form curve in the plane: knot vector and control points.
#[derive(Clone, Debug, PartialEq, Eq)]
pub struct BsplineCurve2 {
    pub knots: Vec<u64>,
    pub control_points: Vec<Point2>,
}

/// A rational free-form curve in the plane: control points are homogeneous.
#[derive(Clone, Debug, PartialEq, Eq)]
pub struct RationalCurve2 {
    pub knots: Vec<u64>,
    pub control_points: Vec<Point3>,
}

/// A free-form curve in space.
#[derive(Clone, Debug, PartialEq, Eq)]
pub struct BsplineCurve3 {
    pub knots: Vec<u64>,
    pub control_points: Vec<Point3>,
}

/// A rational free-form curve in space.
#[derive(Clone, Debug, PartialEq, Eq)]
pub struct RationalCurve3 {
    pub knots: Vec<u64>,
    pub control_points: Vec<Point4>,
}

/// A curve in the parameter plane of a surface, composed with that surface.
#[derive(Debug, PartialEq, Eq)]
pub struct PCurve {
    pub curve: Box<Curve2D>,
    pub surface: Box<crate::surface::Surface>,
}

/// The closed set of planar conic kinds.
#[derive(Clone, Copy, Debug, PartialEq, Eq, Structural)]
pub enum Conic2D {
    Ellipse(ConicArc2),
    Hyperbola(ConicArc2),
    Parabola(ConicArc2),
}

/// The closed set of planar curve kinds.
#[derive(Clone, Debug, PartialEq, Eq)]
pub enum Curve2D {
    Line(Line2),
    Polyline(Polyline2),
    Conic(Conic2D),
    BSplineCurve(BsplineCurve2),
    NurbsCurve(RationalCurve2),
}

/// The closed set of spatial conic kinds.
#[derive(Clone, Copy, Debug, PartialEq, Eq, Structural)]
pub enum Conic3D {
    Ellipse(ConicArc3),
    Hyperbola(ConicArc3),
    Parabola(ConicArc3),
}

/// The closed set of spatial curve kinds.
#[derive(Debug, PartialEq, Eq)]
pub enum Curve3D {
    Line(Line3),
    Polyline(Polyline3),
    Conic(Conic3D),
    BSplineCurve(BsplineCurve3),
    PCurve(PCurve),
    NurbsCurve(RationalCurve3),
}

/// The reversed planar conic: the placement processor records the reversed
/// parametrization sense in its orientation flag and leaves the payload data
/// untouched.
pub open spec fn conic2_inverse(c: Conic2D) -> Conic2D {
    match c {
        Conic2D::Ellipse(a) => Conic2D::Ellipse(ConicArc2 { orientation: !a.orientation, ..a }),
        Conic2D::Hyperbola(a) => Conic2D::Hyperbola(
            ConicArc2 { orientation: !a.orientation, ..a },
        ),
        Conic2D::Parabola(a) => Conic2D::Parabola(ConicArc2 { orientation: !a.orientation, ..a }),
    }
}

/// The reversed spatial conic.
pub open spec fn conic3_inverse(c: Conic3D) -> Conic3D {
    match c {
        Conic3D::Ellipse(a) => Conic3D::Ellipse(ConicArc3 { orientation: !a.orientation, ..a }),
        Conic3D::Hyperbola(a) => Conic3D::Hyperbola(
            ConicArc3 { orientation: !a.orientation, ..a },
        ),
        Conic3D::Parabola(a) => Conic3D::Parabola(ConicArc3 { orientation: !a.orientation, ..a }),
    }
}

impl Conic2D {
    /// The same locus with the parametrization sense reversed; the original
    /// value is left as it is.
    pub fn inverse(&self) -> (r: Conic2D)
        ensures
            r == conic2_inverse(*self),
    {
        match *self {
            Conic2D::Ellipse(a) => Conic2D::Ellipse(
                ConicArc2 { orientation: !a.orientation, ..a },
            ),
            Conic2D::Hyperbola(a) => Conic2D::Hyperbola(
                ConicArc2 { orientation: !a.orientation, ..a },
            ),
            Conic2D::Parabola(a) => Conic2D::Parabola(
                ConicArc2 { orientation: !a.orientation, ..a },
            ),
        }
    }

    /// The declared parameter interval: the trim interval, both ends part of
    /// the domain, whichever conic kind is active.
    pub fn parameter_range(&self) -> (r: (ParamBound, ParamBound))
        ensures
            r == (ParamBound::Inclusive(self.arc().t0), ParamBound::Inclusive(self.arc().t1)),
    {
        let a = match *self {
            Conic2D::Ellipse(a) => a,
            Conic2D::Hyperbola(a) => a,
            Conic2D::Parabola(a) => a,
        };
        (ParamBound::Inclusive(a.t0), ParamBound::Inclusive(a.t1))
    }

    /// The active payload.
    pub open spec fn arc(&self) -> ConicArc2 {
        match *self {
            Conic2D::Ellipse(a) => a,
            Conic2D::Hyperbola(a) => a,
            Conic2D::Parabola(a) => a,
        }
    }
}

impl Conic3D {
    /// The same locus with the parametrization sense reversed.
    pub fn inverse(&self) -> (r: Conic3D)
        ensures
            r == conic3_inverse(*self),
    {
        match *self {
            Conic3D::Ellipse(a) => Conic3D::Ellipse(
                ConicArc3 { orientation: !a.orientation, ..a },
            ),
            Conic3D::Hyperbola(a) => Conic3D::Hyperbola(
                ConicArc3 { orientation: !a.orientation, ..a },
            ),
            Conic3D::Parabola(a) => Conic3D::Parabola(
                ConicArc3 { orientation: !a.orientation, ..a },
            ),
        }
    }

    /// The declared parameter interval: the trim interval, both ends part of
    /// the domain.
    pub fn parameter_range(&self) -> (r: (ParamBound, ParamBound))
        ensures
            r == (ParamBound::Inclusive(self.arc().t0), ParamBound::Inclusive(self.arc().t1)),
    {
        let a = match *self {
            Conic3D::Ellipse(a) => a,
            Conic3D::Hyperbola(a) => a,
            Conic3D::Parabola(a) => a,
        };
        (ParamBound::Inclusive(a.t0), ParamBound::Inclusive(a.t1))
    }

    /// The active payload.
    pub open spec fn arc(&self) -> ConicArc3 {
        match *self {
            Conic3D::Ellipse(a) => a,
            Conic3D::Hyperbola(a) => a,
            Conic3D::Parabola(a) => a,
        }
    }
}

/// Law: reversing a conic twice restores the original value exactly.
pub proof fn lemma_conic2_inverse_involution(c: Conic2D)
    ensures
        conic2_inverse(conic2_inverse(c)) == c,
{
}

/// Law: reversing a spatial conic twice restores the original value exactly.
pub proof fn lemma_conic3_inverse_involution(c: Conic3D)
    ensures
        conic3_inverse(conic3_inverse(c)) == c,
{
}

/// Curves are well formed when the data a domain query reads is present:
/// a polyline has at least one vertex and a free-form curve a nonempty knot
/// vector (the underlying primitives reject the empty cases).
pub open spec fn curve2_wf(c: Curve2D) -> bool {
    match c {
        Curve2D::Line(_) => true,
        Curve2D::Polyline(p) => p.points@.len() >= 1,
        Curve2D::Conic(_) => true,
        Curve2D::BSplineCurve(b) => b.knots@.len() >= 1,
        Curve2D::NurbsCurve(n) => n.knots@.len() >= 1,
    }
}

/// Well-formedness of a spatial curve; a curve on a surface requires it of
/// its underlying planar curve.
pub open spec fn curve3_wf(c: Curve3D) -> bool
    decreases c,
{
    match c {
        Curve3D::Line(_) => true,
        Curve3D::Polyline(p) => p.points@.len() >= 1,
        Curve3D::Conic(_) => true,
        Curve3D::BSplineCurve(b) => b.knots@.len() >= 1,
        Curve3D::PCurve(p) => curve2_wf(*p.curve),
        Curve3D::NurbsCurve(n) => n.knots@.len() >= 1,
    }
}

/// The declared parameter interval of a planar curve: the segment and the
/// free-form curves are bounded at both ends, the polyline runs from 0 to
/// its last vertex index, and the conic is trimmed to its interval.
pub open spec fn curve2_range(c: Curve2D) -> (ParamBound, ParamBound) {
    match c {
        Curve2D::Line(_) => (ParamBound::Inclusive(ZERO_BITS), ParamBound::Inclusive(ONE_BITS)),
        Curve2D::Polyline(p) => (
            ParamBound::Inclusive(ZERO_BITS),
            ParamBound::InclusiveInt((p.points@.len() - 1) as usize),
        ),
        Curve2D::Conic(k) => (ParamBound::Inclusive(k.arc().t0), ParamBound::Inclusive(k.arc().t1)),
        Curve2D::BSplineCurve(b) => (
            ParamBound::Inclusive(b.knots@[0]),
            ParamBound::Inclusive(b.knots@[b.knots@.len() - 1]),
        ),
        Curve2D::NurbsCurve(n) => (
            ParamBound::Inclusive(n.knots@[0]),
            ParamBound::Inclusive(n.knots@[n.knots@.len() - 1]),
        ),
    }
}

/// The declared parameter interval of a spatial curve; a curve on a surface
/// reports the interval of its underlying planar curve.
pub open spec fn curve3_range(c: Curve3D) -> (ParamBound, ParamBound)
    decreases c,
{
    match c {
        Curve3D::Line(_) => (ParamBound::Inclusive(ZERO_BITS), ParamBound::Inclusive(ONE_BITS)),
        Curve3D::Polyline(p) => (
            ParamBound::Inclusive(ZERO_BITS),
            ParamBound::InclusiveInt((p.points@.len() - 1) as usize),
        ),
        Curve3D::Conic(k) => (ParamBound::Inclusive(k.arc().t0), ParamBound::Inclusive(k.arc().t1)),
        Curve3D::BSplineCurve(b) => (
            ParamBound::Inclusive(b.knots@[0]),
            ParamBound::Inclusive(b.knots@[b.knots@.len() - 1]),
        ),
        Curve3D::PCurve(p) => curve2_range(*p.curve),
        Curve3D::NurbsCurve(n) => (
            ParamBound::Inclusive(n.knots@[0]),
            ParamBound::Inclusive(n.knots@[n.knots@.len() - 1]),
        ),
    }
}

impl Curve2D {
    /// The declared parameter interval of the active kind: every planar
    /// curve kind is bounded at both ends.
    pub fn parameter_range(&self) -> (r: (ParamBound, ParamBound))
        requires
            curve2_wf(*self),
        ensures
            r == curve2_range(*self),
    {
        match self {
            Curve2D::Line(_) => (
                ParamBound::Inclusive(ZERO_BITS),
                ParamBound::Inclusive(ONE_BITS),
            ),
            Curve2D::Polyline(p) => (
                ParamBound::Inclusive(ZERO_BITS),
                ParamBound::InclusiveInt(p.points.len() - 1),
            ),
            Curve2D::Conic(k) => k.parameter_range(),
            Curve2D::BSplineCurve(b) => (
                ParamBound::Inclusive(b.knots[0]),
                ParamBound::Inclusive(b.knots[b.knots.len() - 1]),
            ),
            Curve2D::NurbsCurve(n) => (
                ParamBound::Inclusive(n.knots[0]),
                ParamBound::Inclusive(n.knots[n.knots.len() - 1]),
            ),
        }
    }

    /// No planar curve kind is periodic.
    pub fn period(&self) -> (r: Option<u64>)
        ensures
            r is None,
    {
        None
    }
}

impl Curve3D {
    /// The declared parameter interval of the active kind: every spatial
    /// curve kind is bounded at both ends.
    pub fn parameter_range(&self) -> (r: (ParamBound, ParamBound))
        requires
            curve3_wf(*self),
        ensures
            r == curve3_range(*self),
    {
        match self {
            Curve3D::Line(_) => (
                ParamBound::Inclusive(ZERO_BITS),
                ParamBound::Inclusive(ONE_BITS),
            ),
            Curve3D::Polyline(p) => (
                ParamBound::Inclusive(ZERO_BITS),
                ParamBound::InclusiveInt(p.points.len() - 1),
            ),
            Curve3D::Conic(k) => k.parameter_range(),
            Curve3D::BSplineCurve(b) => (
                ParamBound::Inclusive(b.knots[0]),
                ParamBound::Inclusive(b.knots[b.knots.len() - 1]),
            ),
            Curve3D::PCurve(p) => p.curve.parameter_range(),
            Curve3D::NurbsCurve(n) => (
                ParamBound::Inclusive(n.knots[0]),
                ParamBound::Inclusive(n.knots[n.knots.len() - 1]),
            ),
        }
    }

    /// No spatial curve kind is periodic.
    pub fn period(&self) -> (r: Option<u64>)
        ensures
            r is None,
    {
        None
    }
}

} // verus!
