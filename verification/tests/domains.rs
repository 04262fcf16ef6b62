//! Parameter-domain shapes per variant, and orientation reversal.
use std::f64::consts::PI;
use step_geometry::base::{ParamBound, Point2, Point3, HALF_PI_BITS, NEG_HALF_PI_BITS};
use step_geometry::curve::{
    BsplineCurve2, Conic2D, Conic3D, ConicArc2, ConicArc3, Curve2D, Curve3D, Line2, Line3,
    Polyline3,
};
use step_geometry::sphere::Sphere;
use step_geometry::surface::{
    BsplineSurface, ElementarySurface, Plane, SphericalSurface, StepExtrudedCurve,
    StepRevolutedCurve, Surface, SweptCurve, ToroidalSurface,
};

fn b(x: f64) -> u64 {
    x.to_bits()
}

fn p3(x: f64, y: f64, z: f64) -> Point3 {
    Point3 { x: b(x), y: b(y), z: b(z) }
}

fn mat4() -> step_geometry::base::Matrix4 {
    step_geometry::base::Matrix4 {
        r0: step_geometry::base::Point4 { x: b(1.0), y: b(0.0), z: b(0.0), w: b(0.0) },
        r1: step_geometry::base::Point4 { x: b(0.0), y: b(1.0), z: b(0.0), w: b(0.0) },
        r2: step_geometry::base::Point4 { x: b(0.0), y: b(0.0), z: b(1.0), w: b(0.0) },
        r3: step_geometry::base::Point4 { x: b(0.0), y: b(0.0), z: b(0.0), w: b(1.0) },
    }
}

#[test]
fn sphere_reports_periodic_longitude_and_bounded_latitude() {
    let s = Sphere::new(p3(0.0, 0.0, 0.0), b(2.0));
    let (u, v) = s.parameter_range();
    assert_eq!(u.0, ParamBound::Inclusive(0.0f64.to_bits()));
    assert_eq!(u.1, ParamBound::Exclusive((2.0 * PI).to_bits()));
    assert_eq!(v.0, ParamBound::Inclusive(NEG_HALF_PI_BITS));
    assert_eq!(v.1, ParamBound::Exclusive(HALF_PI_BITS));
    assert_eq!(s.u_period(), Some((2.0 * PI).to_bits()));
    assert_eq!(s.v_period(), None);
}

#[test]
fn trimmed_conics_are_bounded_to_their_interval() {
    let arc = ConicArc2 {
        t0: b(0.25),
        t1: b(1.5),
        placement: step_geometry::base::Matrix3 {
            r0: p3(1.0, 0.0, 0.0),
            r1: p3(0.0, 1.0, 0.0),
            r2: p3(0.0, 0.0, 1.0),
        },
        orientation: true,
    };
    let c = Conic2D::Ellipse(arc);
    assert_eq!(
        c.parameter_range(),
        (ParamBound::Inclusive(b(0.25)), ParamBound::Inclusive(b(1.5)))
    );
    let curve = Curve2D::Conic(c);
    assert_eq!(
        curve.parameter_range(),
        (ParamBound::Inclusive(b(0.25)), ParamBound::Inclusive(b(1.5)))
    );
    assert_eq!(curve.period(), None);
}

#[test]
fn line_and_polyline_and_bspline_domains() {
    let line = Curve2D::Line(Line2 {
        a: Point2 { x: b(0.0), y: b(0.0) },
        b: Point2 { x: b(1.0), y: b(1.0) },
    });
    assert_eq!(
        line.parameter_range(),
        (ParamBound::Inclusive(b(0.0)), ParamBound::Inclusive(b(1.0)))
    );

    let poly = Curve3D::Polyline(Polyline3 {
        points: vec![p3(0.0, 0.0, 0.0), p3(1.0, 0.0, 0.0), p3(1.0, 1.0, 0.0)],
    });
    assert_eq!(
        poly.parameter_range(),
        (ParamBound::Inclusive(b(0.0)), ParamBound::InclusiveInt(2))
    );

    let bsp = Curve2D::BSplineCurve(BsplineCurve2 {
        knots: vec![b(0.5), b(1.0), b(2.25)],
        control_points: vec![Point2 { x: b(0.0), y: b(0.0) }],
    });
    assert_eq!(
        bsp.parameter_range(),
        (ParamBound::Inclusive(b(0.5)), ParamBound::Inclusive(b(2.25)))
    );
}

#[test]
fn elementary_surface_domains_follow_their_kind() {
    let plane = ElementarySurface::Plane(Plane {
        o: p3(0.0, 0.0, 0.0),
        p: p3(1.0, 0.0, 0.0),
        q: p3(0.0, 1.0, 0.0),
    });
    let unit = (ParamBound::Inclusive(b(0.0)), ParamBound::Inclusive(b(1.0)));
    assert_eq!(plane.parameter_range(), (unit, unit));
    assert_eq!(plane.u_period(), None);
    assert_eq!(plane.v_period(), None);

    let torus = ElementarySurface::ToroidalSurface(ToroidalSurface {
        center: p3(0.0, 0.0, 0.0),
        large_radius: b(5.0),
        small_radius: b(1.0),
        placement: mat4(),
        orientation: true,
    });
    let turn = (ParamBound::Inclusive(b(0.0)), ParamBound::Exclusive((2.0 * PI).to_bits()));
    assert_eq!(torus.parameter_range(), (turn, turn));
    assert_eq!(torus.u_period(), Some((2.0 * PI).to_bits()));
    assert_eq!(torus.v_period(), Some((2.0 * PI).to_bits()));

    let sphere = ElementarySurface::Sphere(SphericalSurface {
        sphere: Sphere::new(p3(0.0, 0.0, 0.0), b(1.0)),
        placement: mat4(),
        orientation: true,
    });
    let (su, sv) = sphere.parameter_range();
    assert_eq!(su, turn);
    assert_eq!(sv, (ParamBound::Inclusive(NEG_HALF_PI_BITS), ParamBound::Exclusive(HALF_PI_BITS)));
    assert_eq!(sphere.u_period(), Some((2.0 * PI).to_bits()));
    assert_eq!(sphere.v_period(), None);

    // a cleared orientation flag swaps the reported axes
    let flipped = sphere.inverse();
    let (fu, fv) = flipped.parameter_range();
    assert_eq!(fu, sv);
    assert_eq!(fv, su);
    assert_eq!(flipped.u_period(), None);
    assert_eq!(flipped.v_period(), Some((2.0 * PI).to_bits()));
    assert_eq!(flipped.inverse(), sphere);
}

#[test]
fn swept_surface_domains_follow_profile_and_sweep() {
    let profile = Curve3D::Line(Line3 { a: p3(0.0, 0.0, 0.0), b: p3(1.0, 0.0, 0.0) });
    let extruded = SweptCurve::ExtrudedCurve(StepExtrudedCurve {
        curve: Box::new(profile),
        vector: p3(0.0, 0.0, 1.0),
    });
    let unit = (ParamBound::Inclusive(b(0.0)), ParamBound::Inclusive(b(1.0)));
    assert_eq!(extruded.parameter_range(), (unit, unit));
    assert_eq!(extruded.u_period(), None);
    assert_eq!(extruded.v_period(), None);

    let profile2 = Curve3D::Line(Line3 { a: p3(0.0, 0.0, 0.0), b: p3(1.0, 0.0, 0.0) });
    let revolved = SweptCurve::RevolutedCurve(StepRevolutedCurve {
        curve: Box::new(profile2),
        origin: p3(0.0, 0.0, 0.0),
        axis: p3(0.0, 0.0, 1.0),
        placement: mat4(),
        orientation: true,
    });
    let turn = (ParamBound::Inclusive(b(0.0)), ParamBound::Exclusive((2.0 * PI).to_bits()));
    assert_eq!(revolved.parameter_range(), (unit, turn));
    assert_eq!(revolved.u_period(), None);
    assert_eq!(revolved.v_period(), Some((2.0 * PI).to_bits()));
}

#[test]
fn free_form_surface_spans_its_knots() {
    let surf = Surface::BSplineSurface(Box::new(BsplineSurface {
        u_knots: vec![b(0.0), b(3.0)],
        v_knots: vec![b(-1.0), b(1.0)],
        row_len: 1,
        control_points: vec![p3(0.0, 0.0, 0.0)],
    }));
    assert_eq!(
        surf.parameter_range(),
        (
            (ParamBound::Inclusive(b(0.0)), ParamBound::Inclusive(b(3.0))),
            (ParamBound::Inclusive(b(-1.0)), ParamBound::Inclusive(b(1.0))),
        )
    );
    assert_eq!(surf.u_period(), None);
    assert_eq!(surf.v_period(), None);
}

#[test]
fn conic_inversion_toggles_orientation_only() {
    let arc = ConicArc3 {
        t0: b(0.0),
        t1: b(1.0),
        placement: mat4(),
        orientation: false,
    };
    let c = Conic3D::Parabola(arc);
    let inv = c.inverse();
    match inv {
        Conic3D::Parabola(a) => {
            assert!(a.orientation);
            assert_eq!(a.t0, arc.t0);
            assert_eq!(a.t1, arc.t1);
            assert_eq!(a.placement, arc.placement);
        },
        _ => panic!("inversion must keep the active kind"),
    }
    assert_eq!(inv.inverse(), c);
}
