//! Properties of the sphere adapter, cross-checked against the canonical
//! sphere with real arithmetic.
use step_geometry::base::{
    Point3, HALF_PI_BITS, NEG_HALF_PI_BITS, ONE_BITS, PI_BITS, SIGN_MASK, TWO_PI_BITS, ZERO_BITS,
};
use step_geometry::sphere::{Angle, CanonOp, CanonRequest, Sphere};
use truck_geometry::prelude::{ParameterDivision2D, ParametricSurface, ParametricSurface3D, SearchNearestParameter};
use std::f64::consts::PI;

type TruckSphere = truck_geometry::prelude::Sphere;
type TPoint3 = truck_geometry::prelude::Point3;
type TVector3 = truck_geometry::prelude::Vector3;

fn lib_sphere(center: [f64; 3], radius: f64) -> Sphere {
    Sphere::new(
        Point3 {
            x: center[0].to_bits(),
            y: center[1].to_bits(),
            z: center[2].to_bits(),
        },
        radius.to_bits(),
    )
}

fn truck_sphere(center: [f64; 3], radius: f64) -> TruckSphere {
    TruckSphere::new(TPoint3::new(center[0], center[1], center[2]), radius)
}

fn resolve(a: Angle) -> f64 {
    match a {
        Angle::Value(b) => f64::from_bits(b),
        Angle::ComplementOf(b) => PI / 2.0 - f64::from_bits(b),
    }
}

/// Executes one canonical request with real arithmetic.
fn exec(center: [f64; 3], radius: f64, req: CanonRequest) -> TVector3 {
    let c = truck_sphere(center, radius);
    let p = resolve(req.p);
    let q = resolve(req.q);
    let v = match req.op {
        CanonOp::Position => c.subs(p, q) - TPoint3::new(0.0, 0.0, 0.0),
        CanonOp::DerivP => c.uder(p, q),
        CanonOp::DerivQ => c.vder(p, q),
        CanonOp::DerivPP => c.uuder(p, q),
        CanonOp::DerivPQ => c.uvder(p, q),
        CanonOp::DerivQQ => c.vvder(p, q),
        CanonOp::Normal => c.normal(p, q),
    };
    if req.negate { -v } else { v }
}

fn subs(s: &Sphere, center: [f64; 3], radius: f64, u: f64, v: f64) -> TVector3 {
    exec(center, radius, s.subs(u.to_bits(), v.to_bits()))
}

fn uder(s: &Sphere, center: [f64; 3], radius: f64, u: f64, v: f64) -> TVector3 {
    exec(center, radius, s.uder(u.to_bits(), v.to_bits()))
}

fn vder(s: &Sphere, center: [f64; 3], radius: f64, u: f64, v: f64) -> TVector3 {
    exec(center, radius, s.vder(u.to_bits(), v.to_bits()))
}

const SAMPLES: [([f64; 3], f64, f64, f64); 4] = [
    ([1.0, 2.0, 3.0], 4.56, 0.7, 0.3),
    ([-50.0, 10.0, 99.0], 0.5, 3.9, -1.2),
    ([0.0, 0.0, 0.0], 100.0, 5.8, 1.4),
    ([-3.25, 7.5, -88.0], 12.0, 2.0, -0.1),
];

const EPS: f64 = 1.0e-3;

fn magnitude2(v: TVector3) -> f64 {
    v.x * v.x + v.y * v.y + v.z * v.z
}

#[test]
fn derivatives_match_finite_differences() {
    for (center, radius, u, v) in SAMPLES {
        let s = lib_sphere(center, radius);

        let uder0 = uder(&s, center, radius, u, v);
        let uder1 = (subs(&s, center, radius, u + EPS, v) - subs(&s, center, radius, u - EPS, v))
            / (2.0 * EPS);
        assert!(magnitude2(uder0 - uder1) < EPS, "uder: {uder0:?} vs {uder1:?}");

        let vder0 = vder(&s, center, radius, u, v);
        let vder1 = (subs(&s, center, radius, u, v + EPS) - subs(&s, center, radius, u, v - EPS))
            / (2.0 * EPS);
        assert!(magnitude2(vder0 - vder1) < EPS, "vder: {vder0:?} vs {vder1:?}");

        let uuder0 = exec(center, radius, s.uuder(u.to_bits(), v.to_bits()));
        let uuder1 = (uder(&s, center, radius, u + EPS, v) - uder(&s, center, radius, u - EPS, v))
            / (2.0 * EPS);
        assert!(magnitude2(uuder0 - uuder1) < EPS, "uuder: {uuder0:?} vs {uuder1:?}");

        let uvder0 = exec(center, radius, s.uvder(u.to_bits(), v.to_bits()));
        let uvder1 = (uder(&s, center, radius, u, v + EPS) - uder(&s, center, radius, u, v - EPS))
            / (2.0 * EPS);
        assert!(magnitude2(uvder0 - uvder1) < EPS, "uvder: {uvder0:?} vs {uvder1:?}");

        let vvder0 = exec(center, radius, s.vvder(u.to_bits(), v.to_bits()));
        let vvder1 = (vder(&s, center, radius, u, v + EPS) - vder(&s, center, radius, u, v - EPS))
            / (2.0 * EPS);
        assert!(magnitude2(vvder0 - vvder1) < EPS, "vvder: {vvder0:?} vs {vvder1:?}");
    }
}

#[test]
fn normal_matches_cross_product() {
    for (center, radius, u, v) in SAMPLES {
        let s = lib_sphere(center, radius);
        let n0 = exec(center, radius, s.normal(u.to_bits(), v.to_bits()));
        let du = uder(&s, center, radius, u, v);
        let dv = vder(&s, center, radius, u, v);
        let cross = TVector3::new(
            du.y * dv.z - du.z * dv.y,
            du.z * dv.x - du.x * dv.z,
            du.x * dv.y - du.y * dv.x,
        );
        let n1 = cross / magnitude2(cross).sqrt();
        assert!(magnitude2(n0 - n1) < EPS, "normal: {n0:?} vs {n1:?}");
    }
}

#[test]
fn search_round_trip() {
    let center = [1.5, -2.0, 3.0];
    let radius = 2.5;
    let s = lib_sphere(center, radius);
    let (u0, v0) = (1.1, 0.4);
    let pos = subs(&s, center, radius, u0, v0);
    let pt = TPoint3::new(pos.x, pos.y, pos.z);
    let canonical = truck_sphere(center, radius);
    let native = canonical
        .search_nearest_parameter(pt, (PI / 2.0 - v0, u0), 100)
        .map(|(p, q)| (p.to_bits(), q.to_bits()));
    let found = s.search_result(native).expect("search must converge on the surface");
    let u = f64::from_bits(found.0);
    let v = resolve(found.1);
    assert!((u - u0).abs() < 1.0e-9, "u: {u} vs {u0}");
    assert!((v - v0).abs() < 1.0e-9, "v: {v} vs {v0}");
}

#[test]
fn search_result_absent_stays_absent() {
    let s = lib_sphere([0.0, 0.0, 0.0], 1.0);
    assert!(s.search_result(None).is_none());
}

#[test]
fn subdivision_covers_within_tolerance_and_orders_axes() {
    let center = [2.0, -1.0, 0.5];
    let radius = 3.0;
    let s = lib_sphere(center, radius);
    let window = ((0.3f64, 2.6f64), (-0.9f64, 1.1f64));
    let tol = 0.01;

    let ((p0a, p1a), (q0a, q1a)) = s.division_window((
        (window.0 .0.to_bits(), window.0 .1.to_bits()),
        (window.1 .0.to_bits(), window.1 .1.to_bits()),
    ));
    let (p0, p1, q0, q1) = (resolve(p0a), resolve(p1a), resolve(q0a), resolve(q1a));
    assert!(p0 < p1, "canonical window stays ascending");
    let canonical = truck_sphere(center, radius);
    let (pdiv, qdiv) = canonical.parameter_division(((p0, p1), (q0, q1)), tol);
    let pdiv_bits: Vec<u64> = pdiv.iter().map(|t| t.to_bits()).collect();
    let qdiv_bits: Vec<u64> = qdiv.iter().map(|t| t.to_bits()).collect();
    let (udiv_bits, vdiv_angles) = s.division_breakpoints(pdiv_bits, qdiv_bits.clone());
    assert_eq!(udiv_bits, qdiv_bits, "u break points are the q sequence unchanged");
    let udiv: Vec<f64> = udiv_bits.iter().map(|b| f64::from_bits(*b)).collect();
    let vdiv: Vec<f64> = vdiv_angles.iter().map(|a| resolve(*a)).collect();

    for pair in udiv.windows(2) {
        assert!(pair[0] < pair[1], "u break points strictly ascend");
    }
    for pair in vdiv.windows(2) {
        assert!(pair[0] < pair[1], "v break points ascend after the reversal");
    }
    assert!((vdiv[0] - window.1 .0).abs() < 1.0e-12);
    assert!((vdiv[vdiv.len() - 1] - window.1 .1).abs() < 1.0e-12);

    let margin = tol * (1.0 + 1.0e-9);
    let vmid = 0.5 * (window.1 .0 + window.1 .1);
    for pair in udiv.windows(2) {
        let a = subs(&s, center, radius, pair[0], vmid);
        let b = subs(&s, center, radius, pair[1], vmid);
        let mid = subs(&s, center, radius, 0.5 * (pair[0] + pair[1]), vmid);
        let chord = (a + b) / 2.0;
        assert!(
            magnitude2(mid - chord).sqrt() <= margin,
            "u-axis deviation above tolerance"
        );
    }
    let umid = 0.5 * (window.0 .0 + window.0 .1);
    for pair in vdiv.windows(2) {
        let a = subs(&s, center, radius, umid, pair[0]);
        let b = subs(&s, center, radius, umid, pair[1]);
        let mid = subs(&s, center, radius, umid, 0.5 * (pair[0] + pair[1]));
        let chord = (a + b) / 2.0;
        assert!(
            magnitude2(mid - chord).sqrt() <= margin,
            "v-axis deviation above tolerance"
        );
    }
}

#[test]
fn angular_constants_hold_their_bit_patterns() {
    assert_eq!(f64::from_bits(ZERO_BITS), 0.0);
    assert_eq!(f64::from_bits(ONE_BITS), 1.0);
    assert_eq!(f64::from_bits(PI_BITS), PI);
    assert_eq!(f64::from_bits(TWO_PI_BITS), 2.0 * PI);
    assert_eq!(f64::from_bits(HALF_PI_BITS), PI / 2.0);
    assert_eq!(f64::from_bits(NEG_HALF_PI_BITS), -PI / 2.0);
    assert_eq!((-0.75f64).to_bits(), 0.75f64.to_bits() ^ SIGN_MASK);
    assert_eq!((-0.0f64).to_bits(), 0.0f64.to_bits() ^ SIGN_MASK);
}

#[test]
fn negation_flips_each_component_exactly() {
    let p = Point3 {
        x: 1.25f64.to_bits(),
        y: (-7.5f64).to_bits(),
        z: 0.0f64.to_bits(),
    };
    let n = step_geometry::base::negate_point3(p);
    assert_eq!(f64::from_bits(n.x), -1.25);
    assert_eq!(f64::from_bits(n.y), 7.5);
    assert_eq!(n.z, (-0.0f64).to_bits());
}
