//! Round-trip encode/decode for every variant of every category.
use step_geometry::base::{Matrix3, Matrix4, Point2, Point3, Point4};
use step_geometry::codec::{
    decode_conic2, decode_conic3, decode_curve2, decode_curve3, decode_elementary, decode_surface,
    decode_swept, encode_conic2, encode_conic3, encode_curve2, encode_curve3, encode_elementary,
    encode_surface, encode_swept,
};
use step_geometry::curve::{
    BsplineCurve2, BsplineCurve3, Conic2D, Conic3D, ConicArc2, ConicArc3, Curve2D, Curve3D, Line2,
    Line3, PCurve, Polyline2, Polyline3, RationalCurve2, RationalCurve3,
};
use step_geometry::sphere::Sphere;
use step_geometry::surface::{
    BsplineSurface, ElementarySurface, Plane, RationalSurface, RevolvedLine, SphericalSurface,
    StepExtrudedCurve, StepRevolutedCurve, Surface, SweptCurve, ToroidalSurface,
};

fn b(x: f64) -> u64 {
    x.to_bits()
}

fn p2(x: f64, y: f64) -> Point2 {
    Point2 { x: b(x), y: b(y) }
}

fn p3(x: f64, y: f64, z: f64) -> Point3 {
    Point3 { x: b(x), y: b(y), z: b(z) }
}

fn p4(x: f64, y: f64, z: f64, w: f64) -> Point4 {
    Point4 { x: b(x), y: b(y), z: b(z), w: b(w) }
}

fn mat3() -> Matrix3 {
    Matrix3 { r0: p3(1.0, 0.0, 0.5), r1: p3(0.0, 1.0, -2.0), r2: p3(0.0, 0.0, 1.0) }
}

fn mat4() -> Matrix4 {
    Matrix4 {
        r0: p4(1.0, 0.0, 0.0, 4.0),
        r1: p4(0.0, 0.5, 0.0, -3.0),
        r2: p4(0.0, 0.0, 2.0, 0.25),
        r3: p4(0.0, 0.0, 0.0, 1.0),
    }
}

fn arc2() -> ConicArc2 {
    ConicArc2 { t0: b(0.25), t1: b(1.75), placement: mat3(), orientation: true }
}

fn arc3() -> ConicArc3 {
    ConicArc3 { t0: b(-0.5), t1: b(2.5), placement: mat4(), orientation: false }
}

fn revolved_line() -> RevolvedLine {
    RevolvedLine {
        line: Line3 { a: p3(0.0, 0.0, 0.0), b: p3(0.0, 0.0, 5.0) },
        origin: p3(1.0, 1.0, 0.0),
        axis: p3(0.0, 0.0, 1.0),
        placement: mat4(),
        orientation: true,
    }
}

fn sample_curve2(which: usize) -> Curve2D {
    match which {
        0 => Curve2D::Line(Line2 { a: p2(0.0, 1.0), b: p2(2.0, -3.5) }),
        1 => Curve2D::Polyline(Polyline2 { points: vec![p2(0.0, 0.0), p2(1.0, 0.5), p2(2.0, 2.0)] }),
        2 => Curve2D::Conic(Conic2D::Hyperbola(arc2())),
        3 => Curve2D::BSplineCurve(BsplineCurve2 {
            knots: vec![b(0.0), b(0.0), b(1.0), b(1.0)],
            control_points: vec![p2(0.0, 0.0), p2(1.0, 1.0)],
        }),
        _ => Curve2D::NurbsCurve(RationalCurve2 {
            knots: vec![b(0.0), b(0.5), b(1.0)],
            control_points: vec![p3(0.0, 0.0, 1.0), p3(1.0, 2.0, 0.5)],
        }),
    }
}

fn sample_elementary(which: usize) -> ElementarySurface {
    match which {
        0 => ElementarySurface::Plane(Plane {
            o: p3(0.0, 0.0, 0.0),
            p: p3(1.0, 0.0, 0.0),
            q: p3(0.0, 1.0, 0.0),
        }),
        1 => ElementarySurface::RevolutedLine(revolved_line()),
        2 => ElementarySurface::Sphere(SphericalSurface {
            sphere: Sphere::new(p3(1.0, 2.0, 3.0), b(4.5)),
            placement: mat4(),
            orientation: true,
        }),
        3 => ElementarySurface::CylindricalSurface(revolved_line()),
        4 => ElementarySurface::ToroidalSurface(ToroidalSurface {
            center: p3(0.0, -1.0, 2.0),
            large_radius: b(10.0),
            small_radius: b(1.5),
            placement: mat4(),
            orientation: false,
        }),
        _ => ElementarySurface::ConicalSurface(revolved_line()),
    }
}

fn sample_curve3(which: usize) -> Curve3D {
    match which {
        0 => Curve3D::Line(Line3 { a: p3(0.0, 1.0, 2.0), b: p3(3.0, 4.0, 5.0) }),
        1 => Curve3D::Polyline(Polyline3 { points: vec![p3(0.0, 0.0, 0.0), p3(1.0, 1.0, 1.0)] }),
        2 => Curve3D::Conic(Conic3D::Parabola(arc3())),
        3 => Curve3D::BSplineCurve(BsplineCurve3 {
            knots: vec![b(0.0), b(1.0)],
            control_points: vec![p3(0.5, 0.5, 0.5)],
        }),
        4 => Curve3D::PCurve(PCurve {
            curve: Box::new(sample_curve2(0)),
            surface: Box::new(Surface::ElementarySurface(Box::new(sample_elementary(0)))),
        }),
        _ => Curve3D::NurbsCurve(RationalCurve3 {
            knots: vec![b(0.0), b(2.0)],
            control_points: vec![p4(1.0, 2.0, 3.0, 1.0), p4(-1.0, 0.0, 0.5, 2.0)],
        }),
    }
}

fn sample_swept(which: usize) -> SweptCurve {
    match which {
        0 => SweptCurve::ExtrudedCurve(StepExtrudedCurve {
            curve: Box::new(sample_curve3(0)),
            vector: p3(0.0, 0.0, 1.0),
        }),
        _ => SweptCurve::RevolutedCurve(StepRevolutedCurve {
            curve: Box::new(sample_curve3(1)),
            origin: p3(0.0, 0.0, 0.0),
            axis: p3(1.0, 0.0, 0.0),
            placement: mat4(),
            orientation: true,
        }),
    }
}

fn sample_surface(which: usize) -> Surface {
    match which {
        0 => Surface::ElementarySurface(Box::new(sample_elementary(2))),
        1 => Surface::SweptCurve(Box::new(sample_swept(1))),
        2 => Surface::BSplineSurface(Box::new(BsplineSurface {
            u_knots: vec![b(0.0), b(1.0)],
            v_knots: vec![b(0.0), b(0.5), b(1.0)],
            row_len: 2,
            control_points: vec![p3(0.0, 0.0, 0.0), p3(1.0, 0.0, 0.0), p3(0.0, 1.0, 0.0), p3(
                1.0, 1.0, 1.0,
            )],
        })),
        _ => Surface::NurbsSurface(Box::new(RationalSurface {
            u_knots: vec![b(0.0), b(1.0)],
            v_knots: vec![b(0.0), b(1.0)],
            row_len: 1,
            control_points: vec![p4(0.0, 0.0, 0.0, 1.0)],
        })),
    }
}

#[test]
fn conic2_round_trip_every_variant() {
    for c in [
        Conic2D::Ellipse(arc2()),
        Conic2D::Hyperbola(arc2()),
        Conic2D::Parabola(arc2()),
    ] {
        let mut words: Vec<u64> = Vec::new();
        encode_conic2(&c, &mut words);
        let (back, used) = decode_conic2(&words, 0).expect("decodes");
        assert_eq!(back, c);
        assert_eq!(used, words.len());
    }
}

#[test]
fn conic3_round_trip_every_variant() {
    for c in [
        Conic3D::Ellipse(arc3()),
        Conic3D::Hyperbola(arc3()),
        Conic3D::Parabola(arc3()),
    ] {
        let mut words: Vec<u64> = Vec::new();
        encode_conic3(&c, &mut words);
        let (back, used) = decode_conic3(&words, 0).expect("decodes");
        assert_eq!(back, c);
        assert_eq!(used, words.len());
    }
}

#[test]
fn elementary_round_trip_every_variant() {
    for which in 0..6 {
        let e = sample_elementary(which);
        let mut words: Vec<u64> = Vec::new();
        encode_elementary(&e, &mut words);
        let (back, used) = decode_elementary(&words, 0).expect("decodes");
        assert_eq!(back, e);
        assert_eq!(used, words.len());
    }
}

#[test]
fn curve2_round_trip_every_variant() {
    for which in 0..5 {
        let c = sample_curve2(which);
        let mut words: Vec<u64> = Vec::new();
        encode_curve2(&c, &mut words);
        let (back, used) = decode_curve2(&words, 0).expect("decodes");
        assert_eq!(back, c);
        assert_eq!(used, words.len());
    }
}

#[test]
fn curve3_round_trip_every_variant() {
    for which in 0..6 {
        let c = sample_curve3(which);
        let mut words: Vec<u64> = Vec::new();
        encode_curve3(&c, &mut words);
        let (back, used) = decode_curve3(&words, 0).expect("decodes");
        assert_eq!(back, c);
        assert_eq!(used, words.len());
    }
}

#[test]
fn swept_round_trip_every_variant() {
    for which in 0..2 {
        let sw = sample_swept(which);
        let mut words: Vec<u64> = Vec::new();
        encode_swept(&sw, &mut words);
        let (back, used) = decode_swept(&words, 0).expect("decodes");
        assert_eq!(back, sw);
        assert_eq!(used, words.len());
    }
}

#[test]
fn surface_round_trip_every_variant() {
    for which in 0..4 {
        let s = sample_surface(which);
        let mut words: Vec<u64> = Vec::new();
        encode_surface(&s, &mut words);
        let (back, used) = decode_surface(&words, 0).expect("decodes");
        assert_eq!(back, s);
        assert_eq!(used, words.len());
    }
}

#[test]
fn decoding_at_an_offset_finds_the_value() {
    let c = sample_curve2(3);
    let mut words: Vec<u64> = vec![99, 98, 97];
    encode_curve2(&c, &mut words);
    let (back, used) = decode_curve2(&words, 3).expect("decodes");
    assert_eq!(back, c);
    assert_eq!(used, words.len());
}

#[test]
fn truncated_input_is_rejected() {
    let c = sample_curve3(4);
    let mut words: Vec<u64> = Vec::new();
    encode_curve3(&c, &mut words);
    words.pop();
    assert!(decode_curve3(&words, 0).is_none());
}

#[test]
fn unknown_tag_is_rejected() {
    let words: Vec<u64> = vec![17, 0, 0];
    assert!(decode_surface(&words, 0).is_none());
    assert!(decode_curve2(&words, 0).is_none());
}
