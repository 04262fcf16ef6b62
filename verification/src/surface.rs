//! The closed surface categories of the exchange format.
//!
//! An elementary surface composed with a placement processor carries an
//! orientation flag; when the flag is cleared the processor reverses the
//! surface by exchanging the roles of the two parameter axes, so the
//! reported domain and periods swap axes accordingly.
use crate::base::{Matrix4, ParamBound, Point3, Point4, ONE_BITS, TWO_PI_BITS, ZERO_BITS};
use crate::curve::{curve3_range, curve3_wf, Curve3D, Line3};
use crate::sphere::Sphere;
use vstd::prelude::*;

verus! {

/// A plane through `o` spanned towards `p` and `q`, parametrized over the
/// unit square.
#[derive(Clone, Copy, Debug, PartialEq, Eq, Structural)]
pub struct Plane {
    pub o: Point3,
    pub p: Point3,
    pub q: Point3,
}

/// A line revolved about an axis and composed with a placement: the shared
/// shape of the cylindrical and conical kinds. The u-axis runs along the
/// line, the v-axis around the revolution.
#[derive(Clone, Copy, Debug, PartialEq, Eq, Structural)]
pub struct RevolvedLine {
    pub line: Line3,
    pub origin: Point3,
    pub axis: Point3,
    pub placement: Matrix4,
    pub orientation: bool,
}

/// The sphere adapter composed with a placement.
#[derive(Clone, Copy, Debug, PartialEq, Eq, Structural)]
pub struct SphericalSurface {
    pub sphere: Sphere,
    pub placement: Matrix4,
    pub orientation: bool,
}

/// A torus composed with a placement.
#[derive(Clone, Copy, Debug, PartialEq, Eq, Structural)]
pub struct ToroidalSurface {
    pub center: Point3,
    pub large_radius: u64,
    pub small_radius: u64,
    pub placement: Matrix4,
    pub orientation: bool,
}

/// A profile curve extruded along a direction; u runs along the profile,
/// v along the extrusion.
#[derive(Debug, PartialEq, Eq)]
pub struct StepExtrudedCurve {
    pub curve: Box<Curve3D>,
    pub vector: Point3,
}

/// A profile curve revolved about an axis and composed with a placement;
/// u runs along the profile, v around the revolution.
#[derive(Debug, PartialEq, Eq)]
pub struct StepRevolutedCurve {
    pub curve: Box<Curve3D>,
    pub origin: Point3,
    pub axis: Point3,
    pub placement: Matrix4,
    pub orientation: bool,
}

/// A free-form surface: knot vectors per axis and a control grid stored row
/// by row, `row_len` control points per row.
#[derive(Clone, Debug, PartialEq, Eq)]
pub struct BsplineSurface {
    pub u_knots: Vec<u64>,
    pub v_knots: Vec<u64>,
    pub row_len: usize,
    pub control_points: Vec<Point3>,
}

/// A rational free-form surface: the control grid is homogeneous.
#[derive(Clone, Debug, PartialEq, Eq)]
pub struct RationalSurface {
    pub u_knots: Vec<u64>,
    pub v_knots: Vec<u64>,
    pub row_len: usize,
    pub control_points: Vec<Point4>,
}

/// The closed set of elementary surface kinds.
#[derive(Clone, Copy, Debug, PartialEq, Eq, Structural)]
pub enum ElementarySurface {
    Plane(Plane),
    RevolutedLine(RevolvedLine),
    Sphere(SphericalSurface),
    CylindricalSurface(RevolvedLine),
    ToroidalSurface(ToroidalSurface),
    ConicalSurface(RevolvedLine),
}

/// The closed set of swept-curve surface kinds.
#[derive(Debug, PartialEq, Eq)]
pub enum SweptCurve {
    ExtrudedCurve(StepExtrudedCurve),
    RevolutedCurve(StepRevolutedCurve),
}

/// The closed set of surface kinds; payloads are boxed so the union stays
/// small whichever kind is active.
#[derive(Debug, PartialEq, Eq)]
pub enum Surface {
    ElementarySurface(Box<ElementarySurface>),
    SweptCurve(Box<SweptCurve>),
    BSplineSurface(Box<BsplineSurface>),
    NurbsSurface(Box<RationalSurface>),
}

/// The reversed elementary surface: the plane exchanges its two spanning
/// points, every placed kind records the reversal in its orientation flag.
pub open spec fn elementary_inverse(s: ElementarySurface) -> ElementarySurface {
    match s {
        ElementarySurface::Plane(pl) => ElementarySurface::Plane(
            Plane { o: pl.o, p: pl.q, q: pl.p },
        ),
        ElementarySurface::RevolutedLine(r) => ElementarySurface::RevolutedLine(
            RevolvedLine { orientation: !r.orientation, ..r },
        ),
        ElementarySurface::Sphere(s) => ElementarySurface::Sphere(
            SphericalSurface { orientation: !s.orientation, ..s },
        ),
        ElementarySurface::CylindricalSurface(r) => ElementarySurface::CylindricalSurface(
            RevolvedLine { orientation: !r.orientation, ..r },
        ),
        ElementarySurface::ToroidalSurface(t) => ElementarySurface::ToroidalSurface(
            ToroidalSurface { orientation: !t.orientation, ..t },
        ),
        ElementarySurface::ConicalSurface(r) => ElementarySurface::ConicalSurface(
            RevolvedLine { orientation: !r.orientation, ..r },
        ),
    }
}

/// Swaps the two axes of a domain description when `keep` does not hold.
pub open spec fn oriented_axes(
    axes: ((ParamBound, ParamBound), (ParamBound, ParamBound)),
    keep: bool,
) -> ((ParamBound, ParamBound), (ParamBound, ParamBound)) {
    if keep {
        axes
    } else {
        (axes.1, axes.0)
    }
}

/// The domain of an elementary surface in its own axes, before the
/// orientation swap: the plane over the unit square, a revolved line along
/// the line and once around, the sphere over longitude and latitude, the
/// torus once around both ways.
pub open spec fn elementary_native_range(s: ElementarySurface) -> (
    (ParamBound, ParamBound),
    (ParamBound, ParamBound),
) {
    match s {
        ElementarySurface::Plane(_) => (
            (ParamBound::Inclusive(ZERO_BITS), ParamBound::Inclusive(ONE_BITS)),
            (ParamBound::Inclusive(ZERO_BITS), ParamBound::Inclusive(ONE_BITS)),
        ),
        ElementarySurface::Sphere(_) => (
            (ParamBound::Inclusive(ZERO_BITS), ParamBound::Exclusive(TWO_PI_BITS)),
            (
                ParamBound::Inclusive(crate::base::NEG_HALF_PI_BITS),
                ParamBound::Exclusive(crate::base::HALF_PI_BITS),
            ),
        ),
        ElementarySurface::ToroidalSurface(_) => (
            (ParamBound::Inclusive(ZERO_BITS), ParamBound::Exclusive(TWO_PI_BITS)),
            (ParamBound::Inclusive(ZERO_BITS), ParamBound::Exclusive(TWO_PI_BITS)),
        ),
        _ => (
            (ParamBound::Inclusive(ZERO_BITS), ParamBound::Inclusive(ONE_BITS)),
            (ParamBound::Inclusive(ZERO_BITS), ParamBound::Exclusive(TWO_PI_BITS)),
        ),
    }
}

/// Whether the placed payload keeps its own axis order.
pub open spec fn elementary_keeps_axes(s: ElementarySurface) -> bool {
    match s {
        ElementarySurface::Plane(_) => true,
        ElementarySurface::RevolutedLine(r) => r.orientation,
        ElementarySurface::Sphere(s) => s.orientation,
        ElementarySurface::CylindricalSurface(r) => r.orientation,
        ElementarySurface::ToroidalSurface(t) => t.orientation,
        ElementarySurface::ConicalSurface(r) => r.orientation,
    }
}

/// The periods of an elementary surface in its own axes: only angular axes
/// are periodic, with period 2 pi.
pub open spec fn elementary_native_periods(s: ElementarySurface) -> (
    Option<u64>,
    Option<u64>,
) {
    match s {
        ElementarySurface::Plane(_) => (None, None),
        ElementarySurface::Sphere(_) => (Some(TWO_PI_BITS), None),
        ElementarySurface::ToroidalSurface(_) => (Some(TWO_PI_BITS), Some(TWO_PI_BITS)),
        _ => (None, Some(TWO_PI_BITS)),
    }
}

impl ElementarySurface {
    /// The same locus with the orientation reversed; the original value is
    /// left as it is.
    pub fn inverse(&self) -> (r: ElementarySurface)
        ensures
            r == elementary_inverse(*self),
    {
        match *self {
            ElementarySurface::Plane(pl) => ElementarySurface::Plane(
                Plane { o: pl.o, p: pl.q, q: pl.p },
            ),
            ElementarySurface::RevolutedLine(r) => ElementarySurface::RevolutedLine(
                RevolvedLine { orientation: !r.orientation, ..r },
            ),
            ElementarySurface::Sphere(s) => ElementarySurface::Sphere(
                SphericalSurface { orientation: !s.orientation, ..s },
            ),
            ElementarySurface::CylindricalSurface(r) => ElementarySurface::CylindricalSurface(
                RevolvedLine { orientation: !r.orientation, ..r },
            ),
            ElementarySurface::ToroidalSurface(t) => ElementarySurface::ToroidalSurface(
                ToroidalSurface { orientation: !t.orientation, ..t },
            ),
            ElementarySurface::ConicalSurface(r) => ElementarySurface::ConicalSurface(
                RevolvedLine { orientation: !r.orientation, ..r },
            ),
        }
    }

    /// The declared domain of the active kind, axes swapped when the
    /// orientation flag is cleared.
    pub fn parameter_range(&self) -> (r: ((ParamBound, ParamBound), (ParamBound, ParamBound)))
        ensures
            r == oriented_axes(elementary_native_range(*self), elementary_keeps_axes(*self)),
    {
        let native = match *self {
            ElementarySurface::Plane(_) => (
                (ParamBound::Inclusive(ZERO_BITS), ParamBound::Inclusive(ONE_BITS)),
                (ParamBound::Inclusive(ZERO_BITS), ParamBound::Inclusive(ONE_BITS)),
            ),
            ElementarySurface::Sphere(s) => s.sphere.parameter_range(),
            ElementarySurface::ToroidalSurface(_) => (
                (ParamBound::Inclusive(ZERO_BITS), ParamBound::Exclusive(TWO_PI_BITS)),
                (ParamBound::Inclusive(ZERO_BITS), ParamBound::Exclusive(TWO_PI_BITS)),
            ),
            _ => (
                (ParamBound::Inclusive(ZERO_BITS), ParamBound::Inclusive(ONE_BITS)),
                (ParamBound::Inclusive(ZERO_BITS), ParamBound::Exclusive(TWO_PI_BITS)),
            ),
        };
        if self.keeps_axes() {
            native
        } else {
            (native.1, native.0)
        }
    }

    /// The period of the first reported axis, if it is periodic.
    pub fn u_period(&self) -> (r: Option<u64>)
        ensures
            r == if elementary_keeps_axes(*self) {
                elementary_native_periods(*self).0
            } else {
                elementary_native_periods(*self).1
            },
    {
        let native = self.native_periods();
        if self.keeps_axes() {
            native.0
        } else {
            native.1
        }
    }

    /// The period of the second reported axis, if it is periodic.
    pub fn v_period(&self) -> (r: Option<u64>)
        ensures
            r == if elementary_keeps_axes(*self) {
                elementary_native_periods(*self).1
            } else {
                elementary_native_periods(*self).0
            },
    {
        let native = self.native_periods();
        if self.keeps_axes() {
            native.1
        } else {
            native.0
        }
    }

    fn keeps_axes(&self) -> (r: bool)
        ensures
            r == elementary_keeps_axes(*self),
    {
        match *self {
            ElementarySurface::Plane(_) => true,
            ElementarySurface::RevolutedLine(r) => r.orientation,
            ElementarySurface::Sphere(s) => s.orientation,
            ElementarySurface::CylindricalSurface(r) => r.orientation,
            ElementarySurface::ToroidalSurface(t) => t.orientation,
            ElementarySurface::ConicalSurface(r) => r.orientation,
        }
    }

    fn native_periods(&self) -> (r: (Option<u64>, Option<u64>))
        ensures
            r == elementary_native_periods(*self),
    {
        match *self {
            ElementarySurface::Plane(_) => (None, None),
            ElementarySurface::Sphere(_) => (Some(TWO_PI_BITS), None),
            ElementarySurface::ToroidalSurface(_) => (Some(TWO_PI_BITS), Some(TWO_PI_BITS)),
            _ => (None, Some(TWO_PI_BITS)),
        }
    }
}

/// Law: reversing an elementary surface twice restores the original value
/// exactly.
pub proof fn lemma_elementary_inverse_involution(s: ElementarySurface)
    ensures
        elementary_inverse(elementary_inverse(s)) == s,
{
}

/// Well-formedness of a swept surface: its profile curve is well formed.
pub open spec fn swept_wf(s: SweptCurve) -> bool {
    match s {
        SweptCurve::ExtrudedCurve(e) => curve3_wf(*e.curve),
        SweptCurve::RevolutedCurve(r) => curve3_wf(*r.curve),
    }
}

/// The domain of a swept surface before any orientation swap: u along the
/// profile curve, v along the extrusion or once around the revolution.
pub open spec fn swept_native_range(s: SweptCurve) -> (
    (ParamBound, ParamBound),
    (ParamBound, ParamBound),
) {
    match s {
        SweptCurve::ExtrudedCurve(e) => (
            curve3_range(*e.curve),
            (ParamBound::Inclusive(ZERO_BITS), ParamBound::Inclusive(ONE_BITS)),
        ),
        SweptCurve::RevolutedCurve(r) => (
            curve3_range(*r.curve),
            (ParamBound::Inclusive(ZERO_BITS), ParamBound::Exclusive(TWO_PI_BITS)),
        ),
    }
}

/// Whether the swept surface keeps its own axis order: the extrusion is not
/// placed behind a processor, the revolution swaps its axes when its
/// orientation flag is cleared.
pub open spec fn swept_keeps_axes(s: SweptCurve) -> bool {
    match s {
        SweptCurve::ExtrudedCurve(_) => true,
        SweptCurve::RevolutedCurve(r) => r.orientation,
    }
}

/// The periods of a swept surface in its own axes: no profile curve kind is
/// periodic, and the revolution axis has period 2 pi.
pub open spec fn swept_native_periods(s: SweptCurve) -> (Option<u64>, Option<u64>) {
    match s {
        SweptCurve::ExtrudedCurve(_) => (None, None),
        SweptCurve::RevolutedCurve(_) => (None, Some(TWO_PI_BITS)),
    }
}

impl SweptCurve {
    /// The declared domain of the active kind, axes swapped when a cleared
    /// orientation flag reverses the revolution.
    pub fn parameter_range(&self) -> (r: ((ParamBound, ParamBound), (ParamBound, ParamBound)))
        requires
            swept_wf(*self),
        ensures
            r == oriented_axes(swept_native_range(*self), swept_keeps_axes(*self)),
    {
        match self {
            SweptCurve::ExtrudedCurve(e) => (
                e.curve.parameter_range(),
                (ParamBound::Inclusive(ZERO_BITS), ParamBound::Inclusive(ONE_BITS)),
            ),
            SweptCurve::RevolutedCurve(r) => {
                let native = (
                    r.curve.parameter_range(),
                    (ParamBound::Inclusive(ZERO_BITS), ParamBound::Exclusive(TWO_PI_BITS)),
                );
                if r.orientation {
                    native
                } else {
                    (native.1, native.0)
                }
            },
        }
    }

    /// The period of the first reported axis, if it is periodic.
    pub fn u_period(&self) -> (r: Option<u64>)
        ensures
            r == if swept_keeps_axes(*self) {
                swept_native_periods(*self).0
            } else {
                swept_native_periods(*self).1
            },
    {
        match self {
            SweptCurve::ExtrudedCurve(_) => None,
            SweptCurve::RevolutedCurve(r) => if r.orientation {
                None
            } else {
                Some(TWO_PI_BITS)
            },
        }
    }

    /// The period of the second reported axis, if it is periodic.
    pub fn v_period(&self) -> (r: Option<u64>)
        ensures
            r == if swept_keeps_axes(*self) {
                swept_native_periods(*self).1
            } else {
                swept_native_periods(*self).0
            },
    {
        match self {
            SweptCurve::ExtrudedCurve(_) => None,
            SweptCurve::RevolutedCurve(r) => if r.orientation {
                Some(TWO_PI_BITS)
            } else {
                None
            },
        }
    }
}

/// Well-formedness of a surface: knot vectors are nonempty and a swept
/// profile is well formed.
pub open spec fn surface_wf(s: Surface) -> bool {
    match s {
        Surface::ElementarySurface(_) => true,
        Surface::SweptCurve(sw) => swept_wf(*sw),
        Surface::BSplineSurface(b) => b.u_knots@.len() >= 1 && b.v_knots@.len() >= 1,
        Surface::NurbsSurface(n) => n.u_knots@.len() >= 1 && n.v_knots@.len() >= 1,
    }
}

/// The declared domain of a surface: elementary and swept kinds report as
/// above, free-form kinds span their knot vectors on both axes.
pub open spec fn surface_range(s: Surface) -> ((ParamBound, ParamBound), (ParamBound, ParamBound)) {
    match s {
        Surface::ElementarySurface(e) => oriented_axes(
            elementary_native_range(*e),
            elementary_keeps_axes(*e),
        ),
        Surface::SweptCurve(sw) => oriented_axes(swept_native_range(*sw), swept_keeps_axes(*sw)),
        Surface::BSplineSurface(b) => (
            (
                ParamBound::Inclusive(b.u_knots@[0]),
                ParamBound::Inclusive(b.u_knots@[b.u_knots@.len() - 1]),
            ),
            (
                ParamBound::Inclusive(b.v_knots@[0]),
                ParamBound::Inclusive(b.v_knots@[b.v_knots@.len() - 1]),
            ),
        ),
        Surface::NurbsSurface(n) => (
            (
                ParamBound::Inclusive(n.u_knots@[0]),
                ParamBound::Inclusive(n.u_knots@[n.u_knots@.len() - 1]),
            ),
            (
                ParamBound::Inclusive(n.v_knots@[0]),
                ParamBound::Inclusive(n.v_knots@[n.v_knots@.len() - 1]),
            ),
        ),
    }
}

impl Surface {
    /// The declared domain of the active kind.
    pub fn parameter_range(&self) -> (r: ((ParamBound, ParamBound), (ParamBound, ParamBound)))
        requires
            surface_wf(*self),
        ensures
            r == surface_range(*self),
    {
        match self {
            Surface::ElementarySurface(e) => e.parameter_range(),
            Surface::SweptCurve(sw) => sw.parameter_range(),
            Surface::BSplineSurface(b) => (
                (
                    ParamBound::Inclusive(b.u_knots[0]),
                    ParamBound::Inclusive(b.u_knots[b.u_knots.len() - 1]),
                ),
                (
                    ParamBound::Inclusive(b.v_knots[0]),
                    ParamBound::Inclusive(b.v_knots[b.v_knots.len() - 1]),
                ),
            ),
            Surface::NurbsSurface(n) => (
                (
                    ParamBound::Inclusive(n.u_knots[0]),
                    ParamBound::Inclusive(n.u_knots[n.u_knots.len() - 1]),
                ),
                (
                    ParamBound::Inclusive(n.v_knots[0]),
                    ParamBound::Inclusive(n.v_knots[n.v_knots.len() - 1]),
                ),
            ),
        }
    }

    /// The period of the first reported axis: only an elementary or swept
    /// kind can be periodic.
    pub fn u_period(&self) -> (r: Option<u64>)
        ensures
            r == match *self {
                Surface::ElementarySurface(e) => if elementary_keeps_axes(*e) {
                    elementary_native_periods(*e).0
                } else {
                    elementary_native_periods(*e).1
                },
                Surface::SweptCurve(sw) => if swept_keeps_axes(*sw) {
                    swept_native_periods(*sw).0
                } else {
                    swept_native_periods(*sw).1
                },
                _ => None::<u64>,
            },
    {
        match self {
            Surface::ElementarySurface(e) => e.u_period(),
            Surface::SweptCurve(sw) => sw.u_period(),
            _ => None,
        }
    }

    /// The period of the second reported axis.
    pub fn v_period(&self) -> (r: Option<u64>)
        ensures
            r == match *self {
                Surface::ElementarySurface(e) => if elementary_keeps_axes(*e) {
                    elementary_native_periods(*e).1
                } else {
                    elementary_native_periods(*e).0
                },
                Surface::SweptCurve(sw) => if swept_keeps_axes(*sw) {
                    swept_native_periods(*sw).1
                } else {
                    swept_native_periods(*sw).0
                },
                _ => None::<u64>,
            },
    {
        match self {
            Surface::ElementarySurface(e) => e.v_period(),
            Surface::SweptCurve(sw) => sw.v_period(),
            _ => None,
        }
    }
}

} // verus!
