//! A word-stream codec for the geometric categories.
//!
//! A value encodes to a sequence of 64-bit words: one tag word per active
//! variant, every numeric field as its bit pattern, every list with its
//! element count in front. The decoders' contracts state the round trip:
//! whenever the encoding of a value starts at the read position, decoding
//! returns that value (payload for payload, bit for bit) and consumes
//! exactly its encoding.
use crate::base::{Matrix3, Matrix4, Point2, Point3, Point4};
use crate::curve::{BsplineCurve2, BsplineCurve3, Conic2D, ConicArc2, ConicArc3, Conic3D, Curve2D, Curve3D, Line2, Line3, PCurve, Polyline2, Polyline3, RationalCurve2, RationalCurve3};
use crate::sphere::Sphere;
use crate::surface::{BsplineSurface, ElementarySurface, Plane, RationalSurface, RevolvedLine, SphericalSurface, StepExtrudedCurve, StepRevolutedCurve, Surface, SweptCurve, ToroidalSurface};
use vstd::prelude::*;

verus! {

/// `pre` is an initial segment of `s`.
pub open spec fn starts_with(pre: Seq<u64>, s: Seq<u64>) -> bool {
    pre.len() <= s.len() && pre == s.take(pre.len() as int)
}

/// A trimmed conic encodes as its interval, its placement row by row and
/// its orientation flag: 12 words.
pub open spec fn enc_arc2(a: ConicArc2) -> Seq<u64> {
    seq![
        a.t0, a.t1,
        a.placement.r0.x, a.placement.r0.y, a.placement.r0.z,
        a.placement.r1.x, a.placement.r1.y, a.placement.r1.z,
        a.placement.r2.x, a.placement.r2.y, a.placement.r2.z,
        if a.orientation { 1u64 } else { 0u64 },
    ]
}

/// The spatial form carries a 4x4 placement: 19 words.
pub open spec fn enc_arc3(a: ConicArc3) -> Seq<u64> {
    seq![
        a.t0, a.t1,
        a.placement.r0.x, a.placement.r0.y, a.placement.r0.z, a.placement.r0.w,
        a.placement.r1.x, a.placement.r1.y, a.placement.r1.z, a.placement.r1.w,
        a.placement.r2.x, a.placement.r2.y, a.placement.r2.z, a.placement.r2.w,
        a.placement.r3.x, a.placement.r3.y, a.placement.r3.z, a.placement.r3.w,
        if a.orientation { 1u64 } else { 0u64 },
    ]
}

/// Every index below an initial segment's length reads the same word in
/// the longer sequence.
pub proof fn lemma_starts_with_index(pre: Seq<u64>, s: Seq<u64>, k: int)
    requires
        starts_with(pre, s),
        0 <= k < pre.len(),
    ensures
        pre[k] == s[k],
{
    assert(pre[k] == s.take(pre.len() as int)[k]);
}

/// Peeling the head off an initial segment leaves an initial segment of
/// the tail.
pub proof fn lemma_starts_with_tail(pre: Seq<u64>, s: Seq<u64>)
    requires
        starts_with(pre, s),
        pre.len() >= 1,
    ensures
        s.len() >= 1,
        pre[0] == s[0],
        starts_with(pre.skip(1), s.skip(1)),
{
    assert(pre[0] == s.take(pre.len() as int)[0]);
    assert(pre.skip(1) =~= s.skip(1).take(pre.len() - 1));
}

/// A planar conic encodes as a tag word for its kind, then its payload.
pub open spec fn enc_conic2(c: Conic2D) -> Seq<u64> {
    match c {
        Conic2D::Ellipse(a) => seq![0u64] + enc_arc2(a),
        Conic2D::Hyperbola(a) => seq![1u64] + enc_arc2(a),
        Conic2D::Parabola(a) => seq![2u64] + enc_arc2(a),
    }
}

/// A spatial conic encodes as a tag word for its kind, then its payload.
pub open spec fn enc_conic3(c: Conic3D) -> Seq<u64> {
    match c {
        Conic3D::Ellipse(a) => seq![0u64] + enc_arc3(a),
        Conic3D::Hyperbola(a) => seq![1u64] + enc_arc3(a),
        Conic3D::Parabola(a) => seq![2u64] + enc_arc3(a),
    }
}

/// Appends the encoding of a trimmed planar conic payload.
pub fn encode_arc2(a: &ConicArc2, out: &mut Vec<u64>)
    ensures
        final(out)@ == old(out)@ + enc_arc2(*a),
{
    out.push(a.t0);
    out.push(a.t1);
    out.push(a.placement.r0.x);
    out.push(a.placement.r0.y);
    out.push(a.placement.r0.z);
    out.push(a.placement.r1.x);
    out.push(a.placement.r1.y);
    out.push(a.placement.r1.z);
    out.push(a.placement.r2.x);
    out.push(a.placement.r2.y);
    out.push(a.placement.r2.z);
    out.push(if a.orientation { 1 } else { 0 });
    proof {
        assert(out@ =~= old(out)@ + enc_arc2(*a));
    }
}

/// Appends the encoding of a trimmed spatial conic payload.
pub fn encode_arc3(a: &ConicArc3, out: &mut Vec<u64>)
    ensures
        final(out)@ == old(out)@ + enc_arc3(*a),
{
    out.push(a.t0);
    out.push(a.t1);
    out.push(a.placement.r0.x);
    out.push(a.placement.r0.y);
    out.push(a.placement.r0.z);
    out.push(a.placement.r0.w);
    out.push(a.placement.r1.x);
    out.push(a.placement.r1.y);
    out.push(a.placement.r1.z);
    out.push(a.placement.r1.w);
    out.push(a.placement.r2.x);
    out.push(a.placement.r2.y);
    out.push(a.placement.r2.z);
    out.push(a.placement.r2.w);
    out.push(a.placement.r3.x);
    out.push(a.placement.r3.y);
    out.push(a.placement.r3.z);
    out.push(a.placement.r3.w);
    out.push(if a.orientation { 1 } else { 0 });
    proof {
        assert(out@ =~= old(out)@ + enc_arc3(*a));
    }
}

/// Reads a trimmed planar conic payload.
pub fn decode_arc2(w: &Vec<u64>, i: usize) -> (r: Option<(ConicArc2, usize)>)
    requires
        i <= w@.len(),
    ensures
        r matches Some(p) ==> i <= p.1 <= w@.len(),
        forall|v: ConicArc2|
            starts_with(enc_arc2(v), w@.skip(i as int)) ==> (match r {
                Some(p) => p.0 == v && p.1 == i + enc_arc2(v).len(),
                None => false,
            }),
{
    if w.len() - i < 12 {
        return None;
    }
    let a = ConicArc2 {
        t0: w[i],
        t1: w[i + 1],
        placement: Matrix3 {
            r0: Point3 { x: w[i + 2], y: w[i + 3], z: w[i + 4] },
            r1: Point3 { x: w[i + 5], y: w[i + 6], z: w[i + 7] },
            r2: Point3 { x: w[i + 8], y: w[i + 9], z: w[i + 10] },
        },
        orientation: w[i + 11] == 1,
    };
    proof {
        let s = w@.skip(i as int);
        assert forall|v: ConicArc2| starts_with(enc_arc2(v), s) implies v == a by {
            let pre = enc_arc2(v);
            assert(pre.len() == 12);
            lemma_starts_with_index(pre, s, 0);
            lemma_starts_with_index(pre, s, 1);
            lemma_starts_with_index(pre, s, 2);
            lemma_starts_with_index(pre, s, 3);
            lemma_starts_with_index(pre, s, 4);
            lemma_starts_with_index(pre, s, 5);
            lemma_starts_with_index(pre, s, 6);
            lemma_starts_with_index(pre, s, 7);
            lemma_starts_with_index(pre, s, 8);
            lemma_starts_with_index(pre, s, 9);
            lemma_starts_with_index(pre, s, 10);
            lemma_starts_with_index(pre, s, 11);
        }
    }
    Some((a, i + 12))
}

/// Reads a trimmed spatial conic payload.
pub fn decode_arc3(w: &Vec<u64>, i: usize) -> (r: Option<(ConicArc3, usize)>)
    requires
        i <= w@.len(),
    ensures
        r matches Some(p) ==> i <= p.1 <= w@.len(),
        forall|v: ConicArc3|
            starts_with(enc_arc3(v), w@.skip(i as int)) ==> (match r {
                Some(p) => p.0 == v && p.1 == i + enc_arc3(v).len(),
                None => false,
            }),
{
    if w.len() - i < 19 {
        return None;
    }
    let a = ConicArc3 {
        t0: w[i],
        t1: w[i + 1],
        placement: Matrix4 {
            r0: Point4 { x: w[i + 2], y: w[i + 3], z: w[i + 4], w: w[i + 5] },
            r1: Point4 { x: w[i + 6], y: w[i + 7], z: w[i + 8], w: w[i + 9] },
            r2: Point4 { x: w[i + 10], y: w[i + 11], z: w[i + 12], w: w[i + 13] },
            r3: Point4 { x: w[i + 14], y: w[i + 15], z: w[i + 16], w: w[i + 17] },
        },
        orientation: w[i + 18] == 1,
    };
    proof {
        let s = w@.skip(i as int);
        assert forall|v: ConicArc3| starts_with(enc_arc3(v), s) implies v == a by {
            let pre = enc_arc3(v);
            assert(pre.len() == 19);
            assert forall|k: int| 0 <= k < 19 implies pre[k] == s[k] by {
                lemma_starts_with_index(pre, s, k);
            }
            assert(pre[0] == s[0] && pre[1] == s[1] && pre[2] == s[2] && pre[3] == s[3]
                && pre[4] == s[4] && pre[5] == s[5] && pre[6] == s[6] && pre[7] == s[7]
                && pre[8] == s[8] && pre[9] == s[9] && pre[10] == s[10] && pre[11] == s[11]
                && pre[12] == s[12] && pre[13] == s[13] && pre[14] == s[14] && pre[15] == s[15]
                && pre[16] == s[16] && pre[17] == s[17] && pre[18] == s[18]);
        }
    }
    Some((a, i + 19))
}

/// Appends the encoding of a planar conic.
pub fn encode_conic2(c: &Conic2D, out: &mut Vec<u64>)
    ensures
        final(out)@ == old(out)@ + enc_conic2(*c),
{
    match c {
        Conic2D::Ellipse(a) => {
            out.push(0);
            encode_arc2(a, out);
        },
        Conic2D::Hyperbola(a) => {
            out.push(1);
            encode_arc2(a, out);
        },
        Conic2D::Parabola(a) => {
            out.push(2);
            encode_arc2(a, out);
        },
    }
    proof {
        assert(out@ =~= old(out)@ + enc_conic2(*c));
    }
}

/// Appends the encoding of a spatial conic.
pub fn encode_conic3(c: &Conic3D, out: &mut Vec<u64>)
    ensures
        final(out)@ == old(out)@ + enc_conic3(*c),
{
    match c {
        Conic3D::Ellipse(a) => {
            out.push(0);
            encode_arc3(a, out);
        },
        Conic3D::Hyperbola(a) => {
            out.push(1);
            encode_arc3(a, out);
        },
        Conic3D::Parabola(a) => {
            out.push(2);
            encode_arc3(a, out);
        },
    }
    proof {
        assert(out@ =~= old(out)@ + enc_conic3(*c));
    }
}

/// Reads a planar conic: whenever a conic's encoding starts at `i`, the
/// result is that conic, its kind and payload intact.
pub fn decode_conic2(w: &Vec<u64>, i: usize) -> (r: Option<(Conic2D, usize)>)
    requires
        i <= w@.len(),
    ensures
        r matches Some(p) ==> i <= p.1 <= w@.len(),
        forall|v: Conic2D|
            starts_with(enc_conic2(v), w@.skip(i as int)) ==> (match r {
                Some(p) => p.0 == v && p.1 == i + enc_conic2(v).len(),
                None => false,
            }),
{
    if i >= w.len() {
        proof {
            assert forall|v: Conic2D| !starts_with(enc_conic2(v), w@.skip(i as int)) by {
                assert(enc_conic2(v).len() == 13);
            }
        }
        return None;
    }
    proof {
        assert(w@.skip(i as int).skip(1) =~= w@.skip(i + 1));
    }
    let tag = w[i];
    let inner = decode_arc2(w, i + 1);
    let r = if tag == 0 {
        match inner {
            Some((a, j)) => Some((Conic2D::Ellipse(a), j)),
            None => None,
        }
    } else if tag == 1 {
        match inner {
            Some((a, j)) => Some((Conic2D::Hyperbola(a), j)),
            None => None,
        }
    } else if tag == 2 {
        match inner {
            Some((a, j)) => Some((Conic2D::Parabola(a), j)),
            None => None,
        }
    } else {
        None
    };
    proof {
        let s = w@.skip(i as int);
        assert forall|v: Conic2D| starts_with(enc_conic2(v), s) implies (match r {
            Some(p) => p.0 == v && p.1 == i + enc_conic2(v).len(),
            None => false,
        }) by {
            let pre = enc_conic2(v);
            lemma_starts_with_tail(pre, s);
            match v {
                Conic2D::Ellipse(a0) => {
                    assert(pre[0] == 0);
                    assert(pre.skip(1) =~= enc_arc2(a0));
                    assert(starts_with(enc_arc2(a0), w@.skip(i + 1)));
                },
                Conic2D::Hyperbola(a0) => {
                    assert(pre[0] == 1);
                    assert(pre.skip(1) =~= enc_arc2(a0));
                    assert(starts_with(enc_arc2(a0), w@.skip(i + 1)));
                },
                Conic2D::Parabola(a0) => {
                    assert(pre[0] == 2);
                    assert(pre.skip(1) =~= enc_arc2(a0));
                    assert(starts_with(enc_arc2(a0), w@.skip(i + 1)));
                },
            }
        }
    }
    r
}

/// Reads a spatial conic.
pub fn decode_conic3(w: &Vec<u64>, i: usize) -> (r: Option<(Conic3D, usize)>)
    requires
        i <= w@.len(),
    ensures
        r matches Some(p) ==> i <= p.1 <= w@.len(),
        forall|v: Conic3D|
            starts_with(enc_conic3(v), w@.skip(i as int)) ==> (match r {
                Some(p) => p.0 == v && p.1 == i + enc_conic3(v).len(),
                None => false,
            }),
{
    if i >= w.len() {
        proof {
            assert forall|v: Conic3D| !starts_with(enc_conic3(v), w@.skip(i as int)) by {
                assert(enc_conic3(v).len() == 20);
            }
        }
        return None;
    }
    proof {
        assert(w@.skip(i as int).skip(1) =~= w@.skip(i + 1));
    }
    let tag = w[i];
    let inner = decode_arc3(w, i + 1);
    let r = if tag == 0 {
        match inner {
            Some((a, j)) => Some((Conic3D::Ellipse(a), j)),
            None => None,
        }
    } else if tag == 1 {
        match inner {
            Some((a, j)) => Some((Conic3D::Hyperbola(a), j)),
            None => None,
        }
    } else if tag == 2 {
        match inner {
            Some((a, j)) => Some((Conic3D::Parabola(a), j)),
            None => None,
        }
    } else {
        None
    };
    proof {
        let s = w@.skip(i as int);
        assert forall|v: Conic3D| starts_with(enc_conic3(v), s) implies (match r {
            Some(p) => p.0 == v && p.1 == i + enc_conic3(v).len(),
            None => false,
        }) by {
            let pre = enc_conic3(v);
            lemma_starts_with_tail(pre, s);
            match v {
                Conic3D::Ellipse(a0) => {
                    assert(pre[0] == 0);
                    assert(pre.skip(1) =~= enc_arc3(a0));
                    assert(starts_with(enc_arc3(a0), w@.skip(i + 1)));
                },
                Conic3D::Hyperbola(a0) => {
                    assert(pre[0] == 1);
                    assert(pre.skip(1) =~= enc_arc3(a0));
                    assert(starts_with(enc_arc3(a0), w@.skip(i + 1)));
                },
                Conic3D::Parabola(a0) => {
                    assert(pre[0] == 2);
                    assert(pre.skip(1) =~= enc_arc3(a0));
                    assert(starts_with(enc_arc3(a0), w@.skip(i + 1)));
                },
            }
        }
    }
    r
}

/// A plane encodes as its three defining points: 9 words.
pub open spec fn enc_plane(a: Plane) -> Seq<u64> {
    seq![
        a.o.x,
        a.o.y,
        a.o.z,
        a.p.x,
        a.p.y,
        a.p.z,
        a.q.x,
        a.q.y,
        a.q.z,
    ]
}

/// Appends the encoding of this payload.
pub fn encode_plane(a: &Plane, out: &mut Vec<u64>)
    ensures
        final(out)@ == old(out)@ + enc_plane(*a),
{
    out.push(a.o.x);
    out.push(a.o.y);
    out.push(a.o.z);
    out.push(a.p.x);
    out.push(a.p.y);
    out.push(a.p.z);
    out.push(a.q.x);
    out.push(a.q.y);
    out.push(a.q.z);
    proof {
        assert(out@ =~= old(out)@ + enc_plane(*a));
    }
}

/// Reads this payload; whenever its encoding starts at `i` the result is
/// the encoded value.
pub fn decode_plane(w: &Vec<u64>, i: usize) -> (r: Option<(Plane, usize)>)
    requires
        i <= w@.len(),
    ensures
        r matches Some(p) ==> i <= p.1 <= w@.len(),
        forall|v: Plane|
            starts_with(enc_plane(v), w@.skip(i as int)) ==> (match r {
                Some(p) => p.0 == v && p.1 == i + enc_plane(v).len(),
                None => false,
            }),
{
    if w.len() - i < 9 {
        return None;
    }
    let a = Plane {
        o: Point3 { x: w[i + 0], y: w[i + 1], z: w[i + 2] },
        p: Point3 { x: w[i + 3], y: w[i + 4], z: w[i + 5] },
        q: Point3 { x: w[i + 6], y: w[i + 7], z: w[i + 8] },
    };
    proof {
        let s = w@.skip(i as int);
        assert forall|v: Plane| starts_with(enc_plane(v), s) implies v == a by {
            let pre = enc_plane(v);
            assert(pre.len() == 9);
            assert forall|k: int| 0 <= k < 9 implies pre[k] == s[k] by {
                lemma_starts_with_index(pre, s, k);
            }
            assert(pre[0] == s[0]
                && pre[1] == s[1]
                && pre[2] == s[2]
                && pre[3] == s[3]
                && pre[4] == s[4]
                && pre[5] == s[5]
                && pre[6] == s[6]
                && pre[7] == s[7]
                && pre[8] == s[8]);
        }
    }
    Some((a, i + 9))
}

/// A revolved line encodes as its line, revolution origin and axis,
/// placement and orientation flag: 29 words.
pub open spec fn enc_revolved_line(a: RevolvedLine) -> Seq<u64> {
    seq![
        a.line.a.x,
        a.line.a.y,
        a.line.a.z,
        a.line.b.x,
        a.line.b.y,
        a.line.b.z,
        a.origin.x,
        a.origin.y,
        a.origin.z,
        a.axis.x,
        a.axis.y,
        a.axis.z,
        a.placement.r0.x,
        a.placement.r0.y,
        a.placement.r0.z,
        a.placement.r0.w,
        a.placement.r1.x,
        a.placement.r1.y,
        a.placement.r1.z,
        a.placement.r1.w,
        a.placement.r2.x,
        a.placement.r2.y,
        a.placement.r2.z,
        a.placement.r2.w,
        a.placement.r3.x,
        a.placement.r3.y,
        a.placement.r3.z,
        a.placement.r3.w,
        if a.orientation { 1u64 } else { 0u64 },
    ]
}

/// Appends the encoding of this payload.
pub fn encode_revolved_line(a: &RevolvedLine, out: &mut Vec<u64>)
    ensures
        final(out)@ == old(out)@ + enc_revolved_line(*a),
{
    out.push(a.line.a.x);
    out.push(a.line.a.y);
    out.push(a.line.a.z);
    out.push(a.line.b.x);
    out.push(a.line.b.y);
    out.push(a.line.b.z);
    out.push(a.origin.x);
    out.push(a.origin.y);
    out.push(a.origin.z);
    out.push(a.axis.x);
    out.push(a.axis.y);
    out.push(a.axis.z);
    out.push(a.placement.r0.x);
    out.push(a.placement.r0.y);
    out.push(a.placement.r0.z);
    out.push(a.placement.r0.w);
    out.push(a.placement.r1.x);
    out.push(a.placement.r1.y);
    out.push(a.placement.r1.z);
    out.push(a.placement.r1.w);
    out.push(a.placement.r2.x);
    out.push(a.placement.r2.y);
    out.push(a.placement.r2.z);
    out.push(a.placement.r2.w);
    out.push(a.placement.r3.x);
    out.push(a.placement.r3.y);
    out.push(a.placement.r3.z);
    out.push(a.placement.r3.w);
    out.push(if a.orientation { 1 } else { 0 });
    proof {
        assert(out@ =~= old(out)@ + enc_revolved_line(*a));
    }
}

/// Reads this payload; whenever its encoding starts at `i` the result is
/// the encoded value.
pub fn decode_revolved_line(w: &Vec<u64>, i: usize) -> (r: Option<(RevolvedLine, usize)>)
    requires
        i <= w@.len(),
    ensures
        r matches Some(p) ==> i <= p.1 <= w@.len(),
        forall|v: RevolvedLine|
            starts_with(enc_revolved_line(v), w@.skip(i as int)) ==> (match r {
                Some(p) => p.0 == v && p.1 == i + enc_revolved_line(v).len(),
                None => false,
            }),
{
    if w.len() - i < 29 {
        return None;
    }
    let a = RevolvedLine {
        line: Line3 { a: Point3 { x: w[i + 0], y: w[i + 1], z: w[i + 2] }, b: Point3 { x: w[i + 3], y: w[i + 4], z: w[i + 5] } },
        origin: Point3 { x: w[i + 6], y: w[i + 7], z: w[i + 8] },
        axis: Point3 { x: w[i + 9], y: w[i + 10], z: w[i + 11] },
        placement: Matrix4 {
            r0: Point4 { x: w[i + 12], y: w[i + 13], z: w[i + 14], w: w[i + 15] },
            r1: Point4 { x: w[i + 16], y: w[i + 17], z: w[i + 18], w: w[i + 19] },
            r2: Point4 { x: w[i + 20], y: w[i + 21], z: w[i + 22], w: w[i + 23] },
            r3: Point4 { x: w[i + 24], y: w[i + 25], z: w[i + 26], w: w[i + 27] },
        },
        orientation: w[i + 28] == 1,
    };
    proof {
        let s = w@.skip(i as int);
        assert forall|v: RevolvedLine| starts_with(enc_revolved_line(v), s) implies v == a by {
            let pre = enc_revolved_line(v);
            assert(pre.len() == 29);
            assert forall|k: int| 0 <= k < 29 implies pre[k] == s[k] by {
                lemma_starts_with_index(pre, s, k);
            }
            assert(pre[0] == s[0]
                && pre[1] == s[1]
                && pre[2] == s[2]
                && pre[3] == s[3]
                && pre[4] == s[4]
                && pre[5] == s[5]
                && pre[6] == s[6]
                && pre[7] == s[7]
                && pre[8] == s[8]
                && pre[9] == s[9]
                && pre[10] == s[10]
                && pre[11] == s[11]
                && pre[12] == s[12]
                && pre[13] == s[13]
                && pre[14] == s[14]
                && pre[15] == s[15]
                && pre[16] == s[16]
                && pre[17] == s[17]
                && pre[18] == s[18]
                && pre[19] == s[19]
                && pre[20] == s[20]
                && pre[21] == s[21]
                && pre[22] == s[22]
                && pre[23] == s[23]
                && pre[24] == s[24]
                && pre[25] == s[25]
                && pre[26] == s[26]
                && pre[27] == s[27]
                && pre[28] == s[28]);
        }
    }
    Some((a, i + 29))
}

/// A placed sphere encodes as its center, radius, placement and
/// orientation flag: 21 words.
pub open spec fn enc_spherical(a: SphericalSurface) -> Seq<u64> {
    seq![
        a.sphere.center.x,
        a.sphere.center.y,
        a.sphere.center.z,
        a.sphere.radius,
        a.placement.r0.x,
        a.placement.r0.y,
        a.placement.r0.z,
        a.placement.r0.w,
        a.placement.r1.x,
        a.placement.r1.y,
        a.placement.r1.z,
        a.placement.r1.w,
        a.placement.r2.x,
        a.placement.r2.y,
        a.placement.r2.z,
        a.placement.r2.w,
        a.placement.r3.x,
        a.placement.r3.y,
        a.placement.r3.z,
        a.placement.r3.w,
        if a.orientation { 1u64 } else { 0u64 },
    ]
}

/// Appends the encoding of this payload.
pub fn encode_spherical(a: &SphericalSurface, out: &mut Vec<u64>)
    ensures
        final(out)@ == old(out)@ + enc_spherical(*a),
{
    out.push(a.sphere.center.x);
    out.push(a.sphere.center.y);
    out.push(a.sphere.center.z);
    out.push(a.sphere.radius);
    out.push(a.placement.r0.x);
    out.push(a.placement.r0.y);
    out.push(a.placement.r0.z);
    out.push(a.placement.r0.w);
    out.push(a.placement.r1.x);
    out.push(a.placement.r1.y);
    out.push(a.placement.r1.z);
    out.push(a.placement.r1.w);
    out.push(a.placement.r2.x);
    out.push(a.placement.r2.y);
    out.push(a.placement.r2.z);
    out.push(a.placement.r2.w);
    out.push(a.placement.r3.x);
    out.push(a.placement.r3.y);
    out.push(a.placement.r3.z);
    out.push(a.placement.r3.w);
    out.push(if a.orientation { 1 } else { 0 });
    proof {
        assert(out@ =~= old(out)@ + enc_spherical(*a));
    }
}

/// Reads this payload; whenever its encoding starts at `i` the result is
/// the encoded value.
pub fn decode_spherical(w: &Vec<u64>, i: usize) -> (r: Option<(SphericalSurface, usize)>)
    requires
        i <= w@.len(),
    ensures
        r matches Some(p) ==> i <= p.1 <= w@.len(),
        forall|v: SphericalSurface|
            starts_with(enc_spherical(v), w@.skip(i as int)) ==> (match r {
                Some(p) => p.0 == v && p.1 == i + enc_spherical(v).len(),
                None => false,
            }),
{
    if w.len() - i < 21 {
        return None;
    }
    let a = SphericalSurface {
        sphere: Sphere { center: Point3 { x: w[i + 0], y: w[i + 1], z: w[i + 2] }, radius: w[i + 3] },
        placement: Matrix4 {
            r0: Point4 { x: w[i + 4], y: w[i + 5], z: w[i + 6], w: w[i + 7] },
            r1: Point4 { x: w[i + 8], y: w[i + 9], z: w[i + 10], w: w[i + 11] },
            r2: Point4 { x: w[i + 12], y: w[i + 13], z: w[i + 14], w: w[i + 15] },
            r3: Point4 { x: w[i + 16], y: w[i + 17], z: w[i + 18], w: w[i + 19] },
        },
        orientation: w[i + 20] == 1,
    };
    proof {
        let s = w@.skip(i as int);
        assert forall|v: SphericalSurface| starts_with(enc_spherical(v), s) implies v == a by {
            let pre = enc_spherical(v);
            assert(pre.len() == 21);
            assert forall|k: int| 0 <= k < 21 implies pre[k] == s[k] by {
                lemma_starts_with_index(pre, s, k);
            }
            assert(pre[0] == s[0]
                && pre[1] == s[1]
                && pre[2] == s[2]
                && pre[3] == s[3]
                && pre[4] == s[4]
                && pre[5] == s[5]
                && pre[6] == s[6]
                && pre[7] == s[7]
                && pre[8] == s[8]
                && pre[9] == s[9]
                && pre[10] == s[10]
                && pre[11] == s[11]
                && pre[12] == s[12]
                && pre[13] == s[13]
                && pre[14] == s[14]
                && pre[15] == s[15]
                && pre[16] == s[16]
                && pre[17] == s[17]
                && pre[18] == s[18]
                && pre[19] == s[19]
                && pre[20] == s[20]);
        }
    }
    Some((a, i + 21))
}

/// A placed torus encodes as its center, two radii, placement and
/// orientation flag: 22 words.
pub open spec fn enc_toroidal(a: ToroidalSurface) -> Seq<u64> {
    seq![
        a.center.x,
        a.center.y,
        a.center.z,
        a.large_radius,
        a.small_radius,
        a.placement.r0.x,
        a.placement.r0.y,
        a.placement.r0.z,
        a.placement.r0.w,
        a.placement.r1.x,
        a.placement.r1.y,
        a.placement.r1.z,
        a.placement.r1.w,
        a.placement.r2.x,
        a.placement.r2.y,
        a.placement.r2.z,
        a.placement.r2.w,
        a.placement.r3.x,
        a.placement.r3.y,
        a.placement.r3.z,
        a.placement.r3.w,
        if a.orientation { 1u64 } else { 0u64 },
    ]
}

/// Appends the encoding of this payload.
pub fn encode_toroidal(a: &ToroidalSurface, out: &mut Vec<u64>)
    ensures
        final(out)@ == old(out)@ + enc_toroidal(*a),
{
    out.push(a.center.x);
    out.push(a.center.y);
    out.push(a.center.z);
    out.push(a.large_radius);
    out.push(a.small_radius);
    out.push(a.placement.r0.x);
    out.push(a.placement.r0.y);
    out.push(a.placement.r0.z);
    out.push(a.placement.r0.w);
    out.push(a.placement.r1.x);
    out.push(a.placement.r1.y);
    out.push(a.placement.r1.z);
    out.push(a.placement.r1.w);
    out.push(a.placement.r2.x);
    out.push(a.placement.r2.y);
    out.push(a.placement.r2.z);
    out.push(a.placement.r2.w);
    out.push(a.placement.r3.x);
    out.push(a.placement.r3.y);
    out.push(a.placement.r3.z);
    out.push(a.placement.r3.w);
    out.push(if a.orientation { 1 } else { 0 });
    proof {
        assert(out@ =~= old(out)@ + enc_toroidal(*a));
    }
}

/// Reads this payload; whenever its encoding starts at `i` the result is
/// the encoded value.
pub fn decode_toroidal(w: &Vec<u64>, i: usize) -> (r: Option<(ToroidalSurface, usize)>)
    requires
        i <= w@.len(),
    ensures
        r matches Some(p) ==> i <= p.1 <= w@.len(),
        forall|v: ToroidalSurface|
            starts_with(enc_toroidal(v), w@.skip(i as int)) ==> (match r {
                Some(p) => p.0 == v && p.1 == i + enc_toroidal(v).len(),
                None => false,
            }),
{
    if w.len() - i < 22 {
        return None;
    }
    let a = ToroidalSurface {
        center: Point3 { x: w[i + 0], y: w[i + 1], z: w[i + 2] },
        large_radius: w[i + 3],
        small_radius: w[i + 4],
        placement: Matrix4 {
            r0: Point4 { x: w[i + 5], y: w[i + 6], z: w[i + 7], w: w[i + 8] },
            r1: Point4 { x: w[i + 9], y: w[i + 10], z: w[i + 11], w: w[i + 12] },
            r2: Point4 { x: w[i + 13], y: w[i + 14], z: w[i + 15], w: w[i + 16] },
            r3: Point4 { x: w[i + 17], y: w[i + 18], z: w[i + 19], w: w[i + 20] },
        },
        orientation: w[i + 21] == 1,
    };
    proof {
        let s = w@.skip(i as int);
        assert forall|v: ToroidalSurface| starts_with(enc_toroidal(v), s) implies v == a by {
            let pre = enc_toroidal(v);
            assert(pre.len() == 22);
            assert forall|k: int| 0 <= k < 22 implies pre[k] == s[k] by {
                lemma_starts_with_index(pre, s, k);
            }
            assert(pre[0] == s[0]
                && pre[1] == s[1]
                && pre[2] == s[2]
                && pre[3] == s[3]
                && pre[4] == s[4]
                && pre[5] == s[5]
                && pre[6] == s[6]
                && pre[7] == s[7]
                && pre[8] == s[8]
                && pre[9] == s[9]
                && pre[10] == s[10]
                && pre[11] == s[11]
                && pre[12] == s[12]
                && pre[13] == s[13]
                && pre[14] == s[14]
                && pre[15] == s[15]
                && pre[16] == s[16]
                && pre[17] == s[17]
                && pre[18] == s[18]
                && pre[19] == s[19]
                && pre[20] == s[20]
                && pre[21] == s[21]);
        }
    }
    Some((a, i + 22))
}

/// An elementary surface encodes as a tag word for its kind, then its
/// payload.
pub open spec fn enc_elementary(s: ElementarySurface) -> Seq<u64> {
    match s {
        ElementarySurface::Plane(a) => seq![0u64] + enc_plane(a),
        ElementarySurface::RevolutedLine(a) => seq![1u64] + enc_revolved_line(a),
        ElementarySurface::Sphere(a) => seq![2u64] + enc_spherical(a),
        ElementarySurface::CylindricalSurface(a) => seq![3u64] + enc_revolved_line(a),
        ElementarySurface::ToroidalSurface(a) => seq![4u64] + enc_toroidal(a),
        ElementarySurface::ConicalSurface(a) => seq![5u64] + enc_revolved_line(a),
    }
}

/// Appends the encoding of an elementary surface.
pub fn encode_elementary(c: &ElementarySurface, out: &mut Vec<u64>)
    ensures
        final(out)@ == old(out)@ + enc_elementary(*c),
{
    match c {
        ElementarySurface::Plane(a) => {
            out.push(0);
            encode_plane(a, out);
        },
        ElementarySurface::RevolutedLine(a) => {
            out.push(1);
            encode_revolved_line(a, out);
        },
        ElementarySurface::Sphere(a) => {
            out.push(2);
            encode_spherical(a, out);
        },
        ElementarySurface::CylindricalSurface(a) => {
            out.push(3);
            encode_revolved_line(a, out);
        },
        ElementarySurface::ToroidalSurface(a) => {
            out.push(4);
            encode_toroidal(a, out);
        },
        ElementarySurface::ConicalSurface(a) => {
            out.push(5);
            encode_revolved_line(a, out);
        },
    }
    proof {
        assert(out@ =~= old(out)@ + enc_elementary(*c));
    }
}

/// Reads an elementary surface: whenever a surface's encoding starts at
/// `i`, the result is that surface, its kind and payload intact.
pub fn decode_elementary(w: &Vec<u64>, i: usize) -> (r: Option<(ElementarySurface, usize)>)
    requires
        i <= w@.len(),
    ensures
        r matches Some(p) ==> i <= p.1 <= w@.len(),
        forall|v: ElementarySurface|
            starts_with(enc_elementary(v), w@.skip(i as int)) ==> (match r {
                Some(p) => p.0 == v && p.1 == i + enc_elementary(v).len(),
                None => false,
            }),
{
    if i >= w.len() {
        proof {
            assert forall|v: ElementarySurface| !starts_with(
                enc_elementary(v),
                w@.skip(i as int),
            ) by {
                assert(enc_elementary(v).len() >= 10);
            }
        }
        return None;
    }
    proof {
        assert(w@.skip(i as int).skip(1) =~= w@.skip(i + 1));
    }
    let tag = w[i];
    if tag == 0 {
        let inner = decode_plane(w, i + 1);
        let r = match inner {
            Some((a, j)) => Some((ElementarySurface::Plane(a), j)),
            None => None,
        };
        proof {
            let s = w@.skip(i as int);
            assert forall|v: ElementarySurface| starts_with(enc_elementary(v), s) implies (match r {
                Some(p) => p.0 == v && p.1 == i + enc_elementary(v).len(),
                None => false,
            }) by {
                let pre = enc_elementary(v);
                lemma_starts_with_tail(pre, s);
                match v {
                ElementarySurface::Plane(a0) => {
                    assert(pre[0] == 0);
                    assert(pre.skip(1) =~= enc_plane(a0));
                    assert(starts_with(enc_plane(a0), w@.skip(i + 1)));
                },
                ElementarySurface::RevolutedLine(a0) => {
                    assert(pre[0] == 1);
                    assert(pre.skip(1) =~= enc_revolved_line(a0));
                    assert(starts_with(enc_revolved_line(a0), w@.skip(i + 1)));
                },
                ElementarySurface::Sphere(a0) => {
                    assert(pre[0] == 2);
                    assert(pre.skip(1) =~= enc_spherical(a0));
                    assert(starts_with(enc_spherical(a0), w@.skip(i + 1)));
                },
                ElementarySurface::CylindricalSurface(a0) => {
                    assert(pre[0] == 3);
                    assert(pre.skip(1) =~= enc_revolved_line(a0));
                    assert(starts_with(enc_revolved_line(a0), w@.skip(i + 1)));
                },
                ElementarySurface::ToroidalSurface(a0) => {
                    assert(pre[0] == 4);
                    assert(pre.skip(1) =~= enc_toroidal(a0));
                    assert(starts_with(enc_toroidal(a0), w@.skip(i + 1)));
                },
                ElementarySurface::ConicalSurface(a0) => {
                    assert(pre[0] == 5);
                    assert(pre.skip(1) =~= enc_revolved_line(a0));
                    assert(starts_with(enc_revolved_line(a0), w@.skip(i + 1)));
                },
                }
            }
        }
        r
    }
    else if tag == 1 {
        let inner = decode_revolved_line(w, i + 1);
        let r = match inner {
            Some((a, j)) => Some((ElementarySurface::RevolutedLine(a), j)),
            None => None,
        };
        proof {
            let s = w@.skip(i as int);
            assert forall|v: ElementarySurface| starts_with(enc_elementary(v), s) implies (match r {
                Some(p) => p.0 == v && p.1 == i + enc_elementary(v).len(),
                None => false,
            }) by {
                let pre = enc_elementary(v);
                lemma_starts_with_tail(pre, s);
                match v {
                ElementarySurface::Plane(a0) => {
                    assert(pre[0] == 0);
                    assert(pre.skip(1) =~= enc_plane(a0));
                    assert(starts_with(enc_plane(a0), w@.skip(i + 1)));
                },
                ElementarySurface::RevolutedLine(a0) => {
                    assert(pre[0] == 1);
                    assert(pre.skip(1) =~= enc_revolved_line(a0));
                    assert(starts_with(enc_revolved_line(a0), w@.skip(i + 1)));
                },
                ElementarySurface::Sphere(a0) => {
                    assert(pre[0] == 2);
                    assert(pre.skip(1) =~= enc_spherical(a0));
                    assert(starts_with(enc_spherical(a0), w@.skip(i + 1)));
                },
                ElementarySurface::CylindricalSurface(a0) => {
                    assert(pre[0] == 3);
                    assert(pre.skip(1) =~= enc_revolved_line(a0));
                    assert(starts_with(enc_revolved_line(a0), w@.skip(i + 1)));
                },
                ElementarySurface::ToroidalSurface(a0) => {
                    assert(pre[0] == 4);
                    assert(pre.skip(1) =~= enc_toroidal(a0));
                    assert(starts_with(enc_toroidal(a0), w@.skip(i + 1)));
                },
                ElementarySurface::ConicalSurface(a0) => {
                    assert(pre[0] == 5);
                    assert(pre.skip(1) =~= enc_revolved_line(a0));
                    assert(starts_with(enc_revolved_line(a0), w@.skip(i + 1)));
                },
                }
            }
        }
        r
    }
    else if tag == 2 {
        let inner = decode_spherical(w, i + 1);
        let r = match inner {
            Some((a, j)) => Some((ElementarySurface::Sphere(a), j)),
            None => None,
        };
        proof {
            let s = w@.skip(i as int);
            assert forall|v: ElementarySurface| starts_with(enc_elementary(v), s) implies (match r {
                Some(p) => p.0 == v && p.1 == i + enc_elementary(v).len(),
                None => false,
            }) by {
                let pre = enc_elementary(v);
                lemma_starts_with_tail(pre, s);
                match v {
                ElementarySurface::Plane(a0) => {
                    assert(pre[0] == 0);
                    assert(pre.skip(1) =~= enc_plane(a0));
                    assert(starts_with(enc_plane(a0), w@.skip(i + 1)));
                },
                ElementarySurface::RevolutedLine(a0) => {
                    assert(pre[0] == 1);
                    assert(pre.skip(1) =~= enc_revolved_line(a0));
                    assert(starts_with(enc_revolved_line(a0), w@.skip(i + 1)));
                },
                ElementarySurface::Sphere(a0) => {
                    assert(pre[0] == 2);
                    assert(pre.skip(1) =~= enc_spherical(a0));
                    assert(starts_with(enc_spherical(a0), w@.skip(i + 1)));
                },
                ElementarySurface::CylindricalSurface(a0) => {
                    assert(pre[0] == 3);
                    assert(pre.skip(1) =~= enc_revolved_line(a0));
                    assert(starts_with(enc_revolved_line(a0), w@.skip(i + 1)));
                },
                ElementarySurface::ToroidalSurface(a0) => {
                    assert(pre[0] == 4);
                    assert(pre.skip(1) =~= enc_toroidal(a0));
                    assert(starts_with(enc_toroidal(a0), w@.skip(i + 1)));
                },
                ElementarySurface::ConicalSurface(a0) => {
                    assert(pre[0] == 5);
                    assert(pre.skip(1) =~= enc_revolved_line(a0));
                    assert(starts_with(enc_revolved_line(a0), w@.skip(i + 1)));
                },
                }
            }
        }
        r
    }
    else if tag == 3 {
        let inner = decode_revolved_line(w, i + 1);
        let r = match inner {
            Some((a, j)) => Some((ElementarySurface::CylindricalSurface(a), j)),
            None => None,
        };
        proof {
            let s = w@.skip(i as int);
            assert forall|v: ElementarySurface| starts_with(enc_elementary(v), s) implies (match r {
                Some(p) => p.0 == v && p.1 == i + enc_elementary(v).len(),
                None => false,
            }) by {
                let pre = enc_elementary(v);
                lemma_starts_with_tail(pre, s);
                match v {
                ElementarySurface::Plane(a0) => {
                    assert(pre[0] == 0);
                    assert(pre.skip(1) =~= enc_plane(a0));
                    assert(starts_with(enc_plane(a0), w@.skip(i + 1)));
                },
                ElementarySurface::RevolutedLine(a0) => {
                    assert(pre[0] == 1);
                    assert(pre.skip(1) =~= enc_revolved_line(a0));
                    assert(starts_with(enc_revolved_line(a0), w@.skip(i + 1)));
                },
                ElementarySurface::Sphere(a0) => {
                    assert(pre[0] == 2);
                    assert(pre.skip(1) =~= enc_spherical(a0));
                    assert(starts_with(enc_spherical(a0), w@.skip(i + 1)));
                },
                ElementarySurface::CylindricalSurface(a0) => {
                    assert(pre[0] == 3);
                    assert(pre.skip(1) =~= enc_revolved_line(a0));
                    assert(starts_with(enc_revolved_line(a0), w@.skip(i + 1)));
                },
                ElementarySurface::ToroidalSurface(a0) => {
                    assert(pre[0] == 4);
                    assert(pre.skip(1) =~= enc_toroidal(a0));
                    assert(starts_with(enc_toroidal(a0), w@.skip(i + 1)));
                },
                ElementarySurface::ConicalSurface(a0) => {
                    assert(pre[0] == 5);
                    assert(pre.skip(1) =~= enc_revolved_line(a0));
                    assert(starts_with(enc_revolved_line(a0), w@.skip(i + 1)));
                },
                }
            }
        }
        r
    }
    else if tag == 4 {
        let inner = decode_toroidal(w, i + 1);
        let r = match inner {
            Some((a, j)) => Some((ElementarySurface::ToroidalSurface(a), j)),
            None => None,
        };
        proof {
            let s = w@.skip(i as int);
            assert forall|v: ElementarySurface| starts_with(enc_elementary(v), s) implies (match r {
                Some(p) => p.0 == v && p.1 == i + enc_elementary(v).len(),
                None => false,
            }) by {
                let pre = enc_elementary(v);
                lemma_starts_with_tail(pre, s);
                match v {
                ElementarySurface::Plane(a0) => {
                    assert(pre[0] == 0);
                    assert(pre.skip(1) =~= enc_plane(a0));
                    assert(starts_with(enc_plane(a0), w@.skip(i + 1)));
                },
                ElementarySurface::RevolutedLine(a0) => {
                    assert(pre[0] == 1);
                    assert(pre.skip(1) =~= enc_revolved_line(a0));
                    assert(starts_with(enc_revolved_line(a0), w@.skip(i + 1)));
                },
                ElementarySurface::Sphere(a0) => {
                    assert(pre[0] == 2);
                    assert(pre.skip(1) =~= enc_spherical(a0));
                    assert(starts_with(enc_spherical(a0), w@.skip(i + 1)));
                },
                ElementarySurface::CylindricalSurface(a0) => {
                    assert(pre[0] == 3);
                    assert(pre.skip(1) =~= enc_revolved_line(a0));
                    assert(starts_with(enc_revolved_line(a0), w@.skip(i + 1)));
                },
                ElementarySurface::ToroidalSurface(a0) => {
                    assert(pre[0] == 4);
                    assert(pre.skip(1) =~= enc_toroidal(a0));
                    assert(starts_with(enc_toroidal(a0), w@.skip(i + 1)));
                },
                ElementarySurface::ConicalSurface(a0) => {
                    assert(pre[0] == 5);
                    assert(pre.skip(1) =~= enc_revolved_line(a0));
                    assert(starts_with(enc_revolved_line(a0), w@.skip(i + 1)));
                },
                }
            }
        }
        r
    }
    else if tag == 5 {
        let inner = decode_revolved_line(w, i + 1);
        let r = match inner {
            Some((a, j)) => Some((ElementarySurface::ConicalSurface(a), j)),
            None => None,
        };
        proof {
            let s = w@.skip(i as int);
            assert forall|v: ElementarySurface| starts_with(enc_elementary(v), s) implies (match r {
                Some(p) => p.0 == v && p.1 == i + enc_elementary(v).len(),
                None => false,
            }) by {
                let pre = enc_elementary(v);
                lemma_starts_with_tail(pre, s);
                match v {
                ElementarySurface::Plane(a0) => {
                    assert(pre[0] == 0);
                    assert(pre.skip(1) =~= enc_plane(a0));
                    assert(starts_with(enc_plane(a0), w@.skip(i + 1)));
                },
                ElementarySurface::RevolutedLine(a0) => {
                    assert(pre[0] == 1);
                    assert(pre.skip(1) =~= enc_revolved_line(a0));
                    assert(starts_with(enc_revolved_line(a0), w@.skip(i + 1)));
                },
                ElementarySurface::Sphere(a0) => {
                    assert(pre[0] == 2);
                    assert(pre.skip(1) =~= enc_spherical(a0));
                    assert(starts_with(enc_spherical(a0), w@.skip(i + 1)));
                },
                ElementarySurface::CylindricalSurface(a0) => {
                    assert(pre[0] == 3);
                    assert(pre.skip(1) =~= enc_revolved_line(a0));
                    assert(starts_with(enc_revolved_line(a0), w@.skip(i + 1)));
                },
                ElementarySurface::ToroidalSurface(a0) => {
                    assert(pre[0] == 4);
                    assert(pre.skip(1) =~= enc_toroidal(a0));
                    assert(starts_with(enc_toroidal(a0), w@.skip(i + 1)));
                },
                ElementarySurface::ConicalSurface(a0) => {
                    assert(pre[0] == 5);
                    assert(pre.skip(1) =~= enc_revolved_line(a0));
                    assert(starts_with(enc_revolved_line(a0), w@.skip(i + 1)));
                },
                }
            }
        }
        r
    }
    else {
        proof {
            let s = w@.skip(i as int);
            assert forall|v: ElementarySurface| starts_with(enc_elementary(v), s) implies (match None::<(ElementarySurface, usize)> {
                Some(p) => p.0 == v && p.1 == i + enc_elementary(v).len(),
                None => false,
            }) by {
                let pre = enc_elementary(v);
                lemma_starts_with_tail(pre, s);
                match v {
                ElementarySurface::Plane(a0) => {
                    assert(pre[0] == 0);
                    assert(pre.skip(1) =~= enc_plane(a0));
                    assert(starts_with(enc_plane(a0), w@.skip(i + 1)));
                },
                ElementarySurface::RevolutedLine(a0) => {
                    assert(pre[0] == 1);
                    assert(pre.skip(1) =~= enc_revolved_line(a0));
                    assert(starts_with(enc_revolved_line(a0), w@.skip(i + 1)));
                },
                ElementarySurface::Sphere(a0) => {
                    assert(pre[0] == 2);
                    assert(pre.skip(1) =~= enc_spherical(a0));
                    assert(starts_with(enc_spherical(a0), w@.skip(i + 1)));
                },
                ElementarySurface::CylindricalSurface(a0) => {
                    assert(pre[0] == 3);
                    assert(pre.skip(1) =~= enc_revolved_line(a0));
                    assert(starts_with(enc_revolved_line(a0), w@.skip(i + 1)));
                },
                ElementarySurface::ToroidalSurface(a0) => {
                    assert(pre[0] == 4);
                    assert(pre.skip(1) =~= enc_toroidal(a0));
                    assert(starts_with(enc_toroidal(a0), w@.skip(i + 1)));
                },
                ElementarySurface::ConicalSurface(a0) => {
                    assert(pre[0] == 5);
                    assert(pre.skip(1) =~= enc_revolved_line(a0));
                    assert(starts_with(enc_revolved_line(a0), w@.skip(i + 1)));
                },
                }
            }
        }
        None
    }
}

/// A word list encodes as its length, then its words.
pub open spec fn enc_words(sv: Seq<u64>) -> Seq<u64> {
    seq![sv.len() as u64] + sv
}

/// An initial segment of a concatenation splits into an initial segment of
/// the head and one of the remainder.
pub proof fn lemma_starts_with_split(a: Seq<u64>, b: Seq<u64>, s: Seq<u64>)
    requires
        starts_with(a + b, s),
    ensures
        starts_with(a, s),
        starts_with(b, s.skip(a.len() as int)),
{
    assert forall|k: int| 0 <= k < a.len() implies a[k] == s[k] by {
        assert((a + b)[k] == s.take((a + b).len() as int)[k]);
    }
    assert(a =~= s.take(a.len() as int));
    assert forall|k: int| 0 <= k < b.len() implies b[k] == s.skip(a.len() as int)[k] by {
        assert((a + b)[a.len() + k] == s.take((a + b).len() as int)[a.len() + k]);
    }
    assert(b =~= s.skip(a.len() as int).take(b.len() as int));
}

/// Appends the encoding of a word list.
pub fn encode_words(v: &Vec<u64>, out: &mut Vec<u64>)
    ensures
        final(out)@ == old(out)@ + enc_words(v@),
{
    let n = v.len();
    out.push(n as u64);
    let mut k: usize = 0;
    while k < n
        invariant
            n == v@.len(),
            k <= n,
            out@ == old(out)@ + seq![n as u64] + v@.take(k as int),
        decreases n - k,
    {
        out.push(v[k]);
        proof {
            assert(v@.take(k + 1) =~= v@.take(k as int).push(v@[k as int]));
        }
        k = k + 1;
    }
    proof {
        assert(v@.take(n as int) =~= v@);
        assert(out@ =~= old(out)@ + enc_words(v@));
    }
}

/// Reads a word list: whenever a word list's encoding starts at `i`, the
/// result is that list.
pub fn decode_words(w: &Vec<u64>, i: usize) -> (r: Option<(Vec<u64>, usize)>)
    requires
        i <= w@.len(),
    ensures
        r matches Some(p) ==> i < p.1 <= w@.len(),
        forall|sv: Seq<u64>|
            starts_with(enc_words(sv), w@.skip(i as int)) ==> (match r {
                Some(p) => p.0@ == sv && p.1 == i + enc_words(sv).len(),
                None => false,
            }),
{
    if i >= w.len() {
        proof {
            assert forall|sv: Seq<u64>| !starts_with(enc_words(sv), w@.skip(i as int)) by {
                assert(enc_words(sv).len() >= 1);
            }
        }
        return None;
    }
    let n64 = w[i];
    let rem: usize = w.len() - (i + 1);
    if n64 > rem as u64 {
        proof {
            let s = w@.skip(i as int);
            assert forall|sv: Seq<u64>| !starts_with(enc_words(sv), s) by {
                if starts_with(enc_words(sv), s) {
                    lemma_starts_with_index(enc_words(sv), s, 0);
                    assert(sv.len() <= s.len());
                }
            }
        }
        return None;
    }
    let n: usize = n64 as usize;
    proof {
        assert(n == n64);
        assert(i + 1 + n <= w@.len());
    }
    let len: usize = w.len();
    let mut out_v: Vec<u64> = Vec::new();
    let mut k: usize = 0;
    while k < n
        invariant
            len == w@.len(),
            i < len,
            i + 1 + n <= len,
            k <= n,
            out_v@.len() == k,
            forall|m: int| 0 <= m < k ==> out_v@[m] == w@[i + 1 + m],
        decreases n - k,
    {
        out_v.push(w[i + 1 + k]);
        k = k + 1;
    }
    proof {
        let s = w@.skip(i as int);
        assert forall|sv: Seq<u64>| starts_with(enc_words(sv), s) implies (sv == out_v@
            && i + enc_words(sv).len() == i + 1 + n) by {
            let pre = enc_words(sv);
            lemma_starts_with_index(pre, s, 0);
            assert(sv.len() <= s.len());
            assert(sv.len() == n);
            assert forall|m: int| 0 <= m < n implies sv[m] == w@[i + 1 + m] by {
                lemma_starts_with_index(pre, s, 1 + m);
            }
            assert(sv =~= out_v@);
        }
    }
    Some((out_v, i + 1 + n))
}


/// The `x` column of a point list.
pub open spec fn col_x2(s: Seq<Point2>) -> Seq<u64> {
    Seq::new(s.len(), |j: int| s[j].x)
}

/// The `y` column of a point list.
pub open spec fn col_y2(s: Seq<Point2>) -> Seq<u64> {
    Seq::new(s.len(), |j: int| s[j].y)
}

/// A point list encodes column by column, each column as a word list.
pub open spec fn enc_points2(s: Seq<Point2>) -> Seq<u64> {
    enc_words(col_x2(s)) + enc_words(col_y2(s))
}

/// Appends the encoding of a point list.
pub fn encode_points2(v: &Vec<Point2>, out: &mut Vec<u64>)
    ensures
        final(out)@ == old(out)@ + enc_points2(v@),
{
    let mut xs: Vec<u64> = Vec::new();
    let mut kx: usize = 0;
    while kx < v.len()
        invariant
            kx <= v@.len(),
            xs@.len() == kx,
            forall|m: int| 0 <= m < kx ==> xs@[m] == v@[m].x,
        decreases v@.len() - kx,
    {
        xs.push(v[kx].x);
        kx = kx + 1;
    }
    proof {
        assert(xs@ =~= col_x2(v@));
    }
    let mut ys: Vec<u64> = Vec::new();
    let mut ky: usize = 0;
    while ky < v.len()
        invariant
            ky <= v@.len(),
            ys@.len() == ky,
            forall|m: int| 0 <= m < ky ==> ys@[m] == v@[m].y,
        decreases v@.len() - ky,
    {
        ys.push(v[ky].y);
        ky = ky + 1;
    }
    proof {
        assert(ys@ =~= col_y2(v@));
    }
    encode_words(&xs, out);
    encode_words(&ys, out);
    proof {
        assert(out@ =~= old(out)@ + enc_points2(v@));
    }
}

/// Reads a point list: whenever a point list's encoding starts at `i`, the
/// result is that list.
pub fn decode_points2(w: &Vec<u64>, i: usize) -> (r: Option<(Vec<Point2>, usize)>)
    requires
        i <= w@.len(),
    ensures
        r matches Some(p) ==> i < p.1 <= w@.len(),
        forall|sv: Seq<Point2>|
            starts_with(enc_points2(sv), w@.skip(i as int)) ==> (match r {
                Some(p) => p.0@ == sv && p.1 == i + enc_points2(sv).len(),
                None => false,
            }),
{
    let ghost s = w@.skip(i as int);
    proof {
        assert forall|sv: Seq<Point2>| starts_with(enc_points2(sv), s) implies starts_with(
            enc_words(col_x2(sv)),
            s,
        ) by {
            lemma_starts_with_split(enc_words(col_x2(sv)), enc_words(col_y2(sv)), s);
        }
    }
    let (xs, j0) = match decode_words(w, i) {
        Some(p) => p,
        None => {
            return None;
        },
    };
    proof {
        assert forall|sv: Seq<Point2>| starts_with(enc_points2(sv), s) implies starts_with(
            enc_words(col_y2(sv)),
            w@.skip(j0 as int),
        ) by {
            lemma_starts_with_split(enc_words(col_x2(sv)), enc_words(col_y2(sv)), s);
            assert(s.skip((enc_words(col_x2(sv))).len() as int) =~= w@.skip(j0 as int));
        }
    }
    let (ys, j1) = match decode_words(w, j0) {
        Some(p) => p,
        None => {
            return None;
        },
    };
    if ys.len() != xs.len() {
        return None;
    }
    let mut pts: Vec<Point2> = Vec::new();
    let mut k: usize = 0;
    while k < xs.len()
        invariant
            k <= xs@.len(),
            ys@.len() == xs@.len(),
            pts@.len() == k,
            forall|m: int| 0 <= m < k ==> pts@[m] == (Point2 { x: xs@[m], y: ys@[m] }),
        decreases xs@.len() - k,
    {
        pts.push(Point2 { x: xs[k], y: ys[k] });
        k = k + 1;
    }
    proof {
        assert forall|sv: Seq<Point2>| starts_with(enc_points2(sv), s) implies (sv == pts@
            && i + enc_points2(sv).len() == j1) by {
            assert(sv =~= pts@);
        }
    }
    Some((pts, j1))
}

/// The `x` column of a point list.
pub open spec fn col_x3(s: Seq<Point3>) -> Seq<u64> {
    Seq::new(s.len(), |j: int| s[j].x)
}

/// The `y` column of a point list.
pub open spec fn col_y3(s: Seq<Point3>) -> Seq<u64> {
    Seq::new(s.len(), |j: int| s[j].y)
}

/// The `z` column of a point list.
pub open spec fn col_z3(s: Seq<Point3>) -> Seq<u64> {
    Seq::new(s.len(), |j: int| s[j].z)
}

/// A point list encodes column by column, each column as a word list.
pub open spec fn enc_points3(s: Seq<Point3>) -> Seq<u64> {
    enc_words(col_x3(s)) + enc_words(col_y3(s)) + enc_words(col_z3(s))
}

/// Appends the encoding of a point list.
pub fn encode_points3(v: &Vec<Point3>, out: &mut Vec<u64>)
    ensures
        final(out)@ == old(out)@ + enc_points3(v@),
{
    let mut xs: Vec<u64> = Vec::new();
    let mut kx: usize = 0;
    while kx < v.len()
        invariant
            kx <= v@.len(),
            xs@.len() == kx,
            forall|m: int| 0 <= m < kx ==> xs@[m] == v@[m].x,
        decreases v@.len() - kx,
    {
        xs.push(v[kx].x);
        kx = kx + 1;
    }
    proof {
        assert(xs@ =~= col_x3(v@));
    }
    let mut ys: Vec<u64> = Vec::new();
    let mut ky: usize = 0;
    while ky < v.len()
        invariant
            ky <= v@.len(),
            ys@.len() == ky,
            forall|m: int| 0 <= m < ky ==> ys@[m] == v@[m].y,
        decreases v@.len() - ky,
    {
        ys.push(v[ky].y);
        ky = ky + 1;
    }
    proof {
        assert(ys@ =~= col_y3(v@));
    }
    let mut zs: Vec<u64> = Vec::new();
    let mut kz: usize = 0;
    while kz < v.len()
        invariant
            kz <= v@.len(),
            zs@.len() == kz,
            forall|m: int| 0 <= m < kz ==> zs@[m] == v@[m].z,
        decreases v@.len() - kz,
    {
        zs.push(v[kz].z);
        kz = kz + 1;
    }
    proof {
        assert(zs@ =~= col_z3(v@));
    }
    encode_words(&xs, out);
    encode_words(&ys, out);
    encode_words(&zs, out);
    proof {
        assert(out@ =~= old(out)@ + enc_points3(v@));
    }
}

/// Reads a point list: whenever a point list's encoding starts at `i`, the
/// result is that list.
pub fn decode_points3(w: &Vec<u64>, i: usize) -> (r: Option<(Vec<Point3>, usize)>)
    requires
        i <= w@.len(),
    ensures
        r matches Some(p) ==> i < p.1 <= w@.len(),
        forall|sv: Seq<Point3>|
            starts_with(enc_points3(sv), w@.skip(i as int)) ==> (match r {
                Some(p) => p.0@ == sv && p.1 == i + enc_points3(sv).len(),
                None => false,
            }),
{
    let ghost s = w@.skip(i as int);
    proof {
        assert forall|sv: Seq<Point3>| starts_with(enc_points3(sv), s) implies starts_with(
            enc_words(col_x3(sv)),
            s,
        ) by {
            lemma_starts_with_split(enc_words(col_x3(sv)) + enc_words(col_y3(sv)), enc_words(col_z3(sv)), s);
            lemma_starts_with_split(enc_words(col_x3(sv)), enc_words(col_y3(sv)), s);
        }
    }
    let (xs, j0) = match decode_words(w, i) {
        Some(p) => p,
        None => {
            return None;
        },
    };
    proof {
        assert forall|sv: Seq<Point3>| starts_with(enc_points3(sv), s) implies starts_with(
            enc_words(col_y3(sv)),
            w@.skip(j0 as int),
        ) by {
            lemma_starts_with_split(enc_words(col_x3(sv)) + enc_words(col_y3(sv)), enc_words(col_z3(sv)), s);
            lemma_starts_with_split(enc_words(col_x3(sv)), enc_words(col_y3(sv)), s);
            assert(s.skip((enc_words(col_x3(sv))).len() as int) =~= w@.skip(j0 as int));
        }
    }
    let (ys, j1) = match decode_words(w, j0) {
        Some(p) => p,
        None => {
            return None;
        },
    };
    proof {
        assert forall|sv: Seq<Point3>| starts_with(enc_points3(sv), s) implies starts_with(
            enc_words(col_z3(sv)),
            w@.skip(j1 as int),
        ) by {
            lemma_starts_with_split(enc_words(col_x3(sv)) + enc_words(col_y3(sv)), enc_words(col_z3(sv)), s);
            lemma_starts_with_split(enc_words(col_x3(sv)), enc_words(col_y3(sv)), s);
            assert(s.skip((enc_words(col_x3(sv)) + enc_words(col_y3(sv))).len() as int) =~= w@.skip(j1 as int));
        }
    }
    let (zs, j2) = match decode_words(w, j1) {
        Some(p) => p,
        None => {
            return None;
        },
    };
    if ys.len() != xs.len() || zs.len() != xs.len() {
        return None;
    }
    let mut pts: Vec<Point3> = Vec::new();
    let mut k: usize = 0;
    while k < xs.len()
        invariant
            k <= xs@.len(),
            ys@.len() == xs@.len(), zs@.len() == xs@.len(),
            pts@.len() == k,
            forall|m: int| 0 <= m < k ==> pts@[m] == (Point3 { x: xs@[m], y: ys@[m], z: zs@[m] }),
        decreases xs@.len() - k,
    {
        pts.push(Point3 { x: xs[k], y: ys[k], z: zs[k] });
        k = k + 1;
    }
    proof {
        assert forall|sv: Seq<Point3>| starts_with(enc_points3(sv), s) implies (sv == pts@
            && i + enc_points3(sv).len() == j2) by {
            assert(sv =~= pts@);
        }
    }
    Some((pts, j2))
}

/// The `x` column of a point list.
pub open spec fn col_x4(s: Seq<Point4>) -> Seq<u64> {
    Seq::new(s.len(), |j: int| s[j].x)
}

/// The `y` column of a point list.
pub open spec fn col_y4(s: Seq<Point4>) -> Seq<u64> {
    Seq::new(s.len(), |j: int| s[j].y)
}

/// The `z` column of a point list.
pub open spec fn col_z4(s: Seq<Point4>) -> Seq<u64> {
    Seq::new(s.len(), |j: int| s[j].z)
}

/// The `w` column of a point list.
pub open spec fn col_w4(s: Seq<Point4>) -> Seq<u64> {
    Seq::new(s.len(), |j: int| s[j].w)
}

/// A point list encodes column by column, each column as a word list.
pub open spec fn enc_points4(s: Seq<Point4>) -> Seq<u64> {
    enc_words(col_x4(s)) + enc_words(col_y4(s)) + enc_words(col_z4(s)) + enc_words(col_w4(s))
}

/// Appends the encoding of a point list.
pub fn encode_points4(v: &Vec<Point4>, out: &mut Vec<u64>)
    ensures
        final(out)@ == old(out)@ + enc_points4(v@),
{
    let mut xs: Vec<u64> = Vec::new();
    let mut kx: usize = 0;
    while kx < v.len()
        invariant
            kx <= v@.len(),
            xs@.len() == kx,
            forall|m: int| 0 <= m < kx ==> xs@[m] == v@[m].x,
        decreases v@.len() - kx,
    {
        xs.push(v[kx].x);
        kx = kx + 1;
    }
    proof {
        assert(xs@ =~= col_x4(v@));
    }
    let mut ys: Vec<u64> = Vec::new();
    let mut ky: usize = 0;
    while ky < v.len()
        invariant
            ky <= v@.len(),
            ys@.len() == ky,
            forall|m: int| 0 <= m < ky ==> ys@[m] == v@[m].y,
        decreases v@.len() - ky,
    {
        ys.push(v[ky].y);
        ky = ky + 1;
    }
    proof {
        assert(ys@ =~= col_y4(v@));
    }
    let mut zs: Vec<u64> = Vec::new();
    let mut kz: usize = 0;
    while kz < v.len()
        invariant
            kz <= v@.len(),
            zs@.len() == kz,
            forall|m: int| 0 <= m < kz ==> zs@[m] == v@[m].z,
        decreases v@.len() - kz,
    {
        zs.push(v[kz].z);
        kz = kz + 1;
    }
    proof {
        assert(zs@ =~= col_z4(v@));
    }
    let mut ws: Vec<u64> = Vec::new();
    let mut kw: usize = 0;
    while kw < v.len()
        invariant
            kw <= v@.len(),
            ws@.len() == kw,
            forall|m: int| 0 <= m < kw ==> ws@[m] == v@[m].w,
        decreases v@.len() - kw,
    {
        ws.push(v[kw].w);
        kw = kw + 1;
    }
    proof {
        assert(ws@ =~= col_w4(v@));
    }
    encode_words(&xs, out);
    encode_words(&ys, out);
    encode_words(&zs, out);
    encode_words(&ws, out);
    proof {
        assert(out@ =~= old(out)@ + enc_points4(v@));
    }
}

/// Reads a point list: whenever a point list's encoding starts at `i`, the
/// result is that list.
pub fn decode_points4(w: &Vec<u64>, i: usize) -> (r: Option<(Vec<Point4>, usize)>)
    requires
        i <= w@.len(),
    ensures
        r matches Some(p) ==> i < p.1 <= w@.len(),
        forall|sv: Seq<Point4>|
            starts_with(enc_points4(sv), w@.skip(i as int)) ==> (match r {
                Some(p) => p.0@ == sv && p.1 == i + enc_points4(sv).len(),
                None => false,
            }),
{
    let ghost s = w@.skip(i as int);
    proof {
        assert forall|sv: Seq<Point4>| starts_with(enc_points4(sv), s) implies starts_with(
            enc_words(col_x4(sv)),
            s,
        ) by {
            lemma_starts_with_split(enc_words(col_x4(sv)) + enc_words(col_y4(sv)) + enc_words(col_z4(sv)), enc_words(col_w4(sv)), s);
            lemma_starts_with_split(enc_words(col_x4(sv)) + enc_words(col_y4(sv)), enc_words(col_z4(sv)), s);
            lemma_starts_with_split(enc_words(col_x4(sv)), enc_words(col_y4(sv)), s);
        }
    }
    let (xs, j0) = match decode_words(w, i) {
        Some(p) => p,
        None => {
            return None;
        },
    };
    proof {
        assert forall|sv: Seq<Point4>| starts_with(enc_points4(sv), s) implies starts_with(
            enc_words(col_y4(sv)),
            w@.skip(j0 as int),
        ) by {
            lemma_starts_with_split(enc_words(col_x4(sv)) + enc_words(col_y4(sv)) + enc_words(col_z4(sv)), enc_words(col_w4(sv)), s);
            lemma_starts_with_split(enc_words(col_x4(sv)) + enc_words(col_y4(sv)), enc_words(col_z4(sv)), s);
            lemma_starts_with_split(enc_words(col_x4(sv)), enc_words(col_y4(sv)), s);
            assert(s.skip((enc_words(col_x4(sv))).len() as int) =~= w@.skip(j0 as int));
        }
    }
    let (ys, j1) = match decode_words(w, j0) {
        Some(p) => p,
        None => {
            return None;
        },
    };
    proof {
        assert forall|sv: Seq<Point4>| starts_with(enc_points4(sv), s) implies starts_with(
            enc_words(col_z4(sv)),
            w@.skip(j1 as int),
        ) by {
            lemma_starts_with_split(enc_words(col_x4(sv)) + enc_words(col_y4(sv)) + enc_words(col_z4(sv)), enc_words(col_w4(sv)), s);
            lemma_starts_with_split(enc_words(col_x4(sv)) + enc_words(col_y4(sv)), enc_words(col_z4(sv)), s);
            lemma_starts_with_split(enc_words(col_x4(sv)), enc_words(col_y4(sv)), s);
            assert(s.skip((enc_words(col_x4(sv)) + enc_words(col_y4(sv))).len() as int) =~= w@.skip(j1 as int));
        }
    }
    let (zs, j2) = match decode_words(w, j1) {
        Some(p) => p,
        None => {
            return None;
        },
    };
    proof {
        assert forall|sv: Seq<Point4>| starts_with(enc_points4(sv), s) implies starts_with(
            enc_words(col_w4(sv)),
            w@.skip(j2 as int),
        ) by {
            lemma_starts_with_split(enc_words(col_x4(sv)) + enc_words(col_y4(sv)) + enc_words(col_z4(sv)), enc_words(col_w4(sv)), s);
            lemma_starts_with_split(enc_words(col_x4(sv)) + enc_words(col_y4(sv)), enc_words(col_z4(sv)), s);
            lemma_starts_with_split(enc_words(col_x4(sv)), enc_words(col_y4(sv)), s);
            assert(s.skip((enc_words(col_x4(sv)) + enc_words(col_y4(sv)) + enc_words(col_z4(sv))).len() as int) =~= w@.skip(j2 as int));
        }
    }
    let (ws, j3) = match decode_words(w, j2) {
        Some(p) => p,
        None => {
            return None;
        },
    };
    if ys.len() != xs.len() || zs.len() != xs.len() || ws.len() != xs.len() {
        return None;
    }
    let mut pts: Vec<Point4> = Vec::new();
    let mut k: usize = 0;
    while k < xs.len()
        invariant
            k <= xs@.len(),
            ys@.len() == xs@.len(), zs@.len() == xs@.len(), ws@.len() == xs@.len(),
            pts@.len() == k,
            forall|m: int| 0 <= m < k ==> pts@[m] == (Point4 { x: xs@[m], y: ys@[m], z: zs@[m], w: ws@[m] }),
        decreases xs@.len() - k,
    {
        pts.push(Point4 { x: xs[k], y: ys[k], z: zs[k], w: ws[k] });
        k = k + 1;
    }
    proof {
        assert forall|sv: Seq<Point4>| starts_with(enc_points4(sv), s) implies (sv == pts@
            && i + enc_points4(sv).len() == j3) by {
            assert(sv =~= pts@);
        }
    }
    Some((pts, j3))
}

/// Value equality for planar curves: the same active kind and a payload
/// identical word for word.
pub open spec fn eqv_curve2(a: Curve2D, b: Curve2D) -> bool {
    match (a, b) {
        (Curve2D::Line(x), Curve2D::Line(y)) => x == y,
        (Curve2D::Polyline(x), Curve2D::Polyline(y)) => x.points@ == y.points@,
        (Curve2D::Conic(x), Curve2D::Conic(y)) => x == y,
        (Curve2D::BSplineCurve(x), Curve2D::BSplineCurve(y)) => x.knots@ == y.knots@
            && x.control_points@ == y.control_points@,
        (Curve2D::NurbsCurve(x), Curve2D::NurbsCurve(y)) => x.knots@ == y.knots@
            && x.control_points@ == y.control_points@,
        _ => false,
    }
}

/// A planar line segment encodes as its two endpoints: 4 words.
pub open spec fn enc_line2(l: Line2) -> Seq<u64> {
    seq![l.a.x, l.a.y, l.b.x, l.b.y]
}

/// A spatial line segment encodes as its two endpoints: 6 words.
pub open spec fn enc_line3(l: Line3) -> Seq<u64> {
    seq![l.a.x, l.a.y, l.a.z, l.b.x, l.b.y, l.b.z]
}

/// A planar curve encodes as a tag word for its kind, then its payload.
pub open spec fn enc_curve2(c: Curve2D) -> Seq<u64> {
    match c {
        Curve2D::Line(l) => seq![0u64] + enc_line2(l),
        Curve2D::Polyline(p) => seq![1u64] + enc_points2(p.points@),
        Curve2D::Conic(k) => seq![2u64] + enc_conic2(k),
        Curve2D::BSplineCurve(b) => seq![3u64] + enc_words(b.knots@) + enc_points2(
            b.control_points@,
        ),
        Curve2D::NurbsCurve(n) => seq![4u64] + enc_words(n.knots@) + enc_points3(
            n.control_points@,
        ),
    }
}

/// Appends the encoding of a planar curve.
pub fn encode_curve2(c: &Curve2D, out: &mut Vec<u64>)
    ensures
        final(out)@ == old(out)@ + enc_curve2(*c),
{
    match c {
        Curve2D::Line(l) => {
            out.push(0);
            out.push(l.a.x);
            out.push(l.a.y);
            out.push(l.b.x);
            out.push(l.b.y);
        },
        Curve2D::Polyline(p) => {
            out.push(1);
            encode_points2(&p.points, out);
        },
        Curve2D::Conic(k) => {
            out.push(2);
            encode_conic2(k, out);
        },
        Curve2D::BSplineCurve(b) => {
            out.push(3);
            encode_words(&b.knots, out);
            encode_points2(&b.control_points, out);
        },
        Curve2D::NurbsCurve(n) => {
            out.push(4);
            encode_words(&n.knots, out);
            encode_points3(&n.control_points, out);
        },
    }
    proof {
        assert(out@ =~= old(out)@ + enc_curve2(*c));
    }
}

/// Reads a planar curve: whenever a curve's encoding starts at `i`, the
/// result is that curve, its kind and payload intact.
pub fn decode_curve2(w: &Vec<u64>, i: usize) -> (r: Option<(Curve2D, usize)>)
    requires
        i <= w@.len(),
    ensures
        r matches Some(p) ==> i < p.1 <= w@.len(),
        forall|v: Curve2D|
            starts_with(enc_curve2(v), w@.skip(i as int)) ==> (match r {
                Some(p) => eqv_curve2(p.0, v) && p.1 == i + enc_curve2(v).len(),
                None => false,
            }),
{
    let ghost s = w@.skip(i as int);
    if i >= w.len() {
        proof {
            assert forall|v: Curve2D| !starts_with(enc_curve2(v), s) by {
                assert(enc_curve2(v).len() >= 1);
            }
        }
        return None;
    }
    proof {
        assert(s.skip(1) =~= w@.skip(i + 1));
    }
    let tag = w[i];
    proof {
        assert forall|v: Curve2D| starts_with(enc_curve2(v), s) implies (match v {
            Curve2D::Line(l0) => w@[i as int] == 0 && starts_with(enc_line2(l0), w@.skip(i + 1)),
            Curve2D::Polyline(p0) => w@[i as int] == 1 && starts_with(
                enc_points2(p0.points@),
                w@.skip(i + 1),
            ),
            Curve2D::Conic(k0) => w@[i as int] == 2 && starts_with(enc_conic2(k0), w@.skip(i + 1)),
            Curve2D::BSplineCurve(b0) => w@[i as int] == 3 && starts_with(
                enc_words(b0.knots@),
                w@.skip(i + 1),
            ) && starts_with(
                enc_points2(b0.control_points@),
                w@.skip(i + 1 + enc_words(b0.knots@).len()),
            ),
            Curve2D::NurbsCurve(n0) => w@[i as int] == 4 && starts_with(
                enc_words(n0.knots@),
                w@.skip(i + 1),
            ) && starts_with(
                enc_points3(n0.control_points@),
                w@.skip(i + 1 + enc_words(n0.knots@).len()),
            ),
        }) by {
            let pre = enc_curve2(v);
            lemma_starts_with_tail(pre, s);
            match v {
                Curve2D::Line(l0) => {
                    assert(pre.skip(1) =~= enc_line2(l0));
                },
                Curve2D::Polyline(p0) => {
                    assert(pre.skip(1) =~= enc_points2(p0.points@));
                },
                Curve2D::Conic(k0) => {
                    assert(pre.skip(1) =~= enc_conic2(k0));
                },
                Curve2D::BSplineCurve(b0) => {
                    assert(pre.skip(1) =~= enc_words(b0.knots@) + enc_points2(
                        b0.control_points@,
                    ));
                    lemma_starts_with_split(
                        enc_words(b0.knots@),
                        enc_points2(b0.control_points@),
                        w@.skip(i + 1),
                    );
                    assert(w@.skip(i + 1).skip(enc_words(b0.knots@).len() as int) =~= w@.skip(
                        i + 1 + enc_words(b0.knots@).len(),
                    ));
                },
                Curve2D::NurbsCurve(n0) => {
                    assert(pre.skip(1) =~= enc_words(n0.knots@) + enc_points3(
                        n0.control_points@,
                    ));
                    lemma_starts_with_split(
                        enc_words(n0.knots@),
                        enc_points3(n0.control_points@),
                        w@.skip(i + 1),
                    );
                    assert(w@.skip(i + 1).skip(enc_words(n0.knots@).len() as int) =~= w@.skip(
                        i + 1 + enc_words(n0.knots@).len(),
                    ));
                },
            }
        }
    }
    if tag == 0 {
        if w.len() - (i + 1) < 4 {
            return None;
        }
        let l = Line2 {
            a: Point2 { x: w[i + 1], y: w[i + 2] },
            b: Point2 { x: w[i + 3], y: w[i + 4] },
        };
        proof {
            assert forall|v: Curve2D| starts_with(enc_curve2(v), s) implies (match v {
                Curve2D::Line(l0) => l0 == l,
                _ => false,
            }) by {
                if let Curve2D::Line(l0) = v {
                    let pe = enc_line2(l0);
                    let t = w@.skip(i + 1);
                    lemma_starts_with_index(pe, t, 0);
                    lemma_starts_with_index(pe, t, 1);
                    lemma_starts_with_index(pe, t, 2);
                    lemma_starts_with_index(pe, t, 3);
                }
            }
        }
        Some((Curve2D::Line(l), i + 5))
    } else if tag == 1 {
        match decode_points2(w, i + 1) {
            Some((pts, j)) => Some((Curve2D::Polyline(Polyline2 { points: pts }), j)),
            None => None,
        }
    } else if tag == 2 {
        match decode_conic2(w, i + 1) {
            Some((k, j)) => Some((Curve2D::Conic(k), j)),
            None => None,
        }
    } else if tag == 3 {
        let (kn, j1) = match decode_words(w, i + 1) {
            Some(p) => p,
            None => {
                return None;
            },
        };
        let (cp, j2) = match decode_points2(w, j1) {
            Some(p) => p,
            None => {
                return None;
            },
        };
        Some((Curve2D::BSplineCurve(BsplineCurve2 { knots: kn, control_points: cp }), j2))
    } else if tag == 4 {
        let (kn, j1) = match decode_words(w, i + 1) {
            Some(p) => p,
            None => {
                return None;
            },
        };
        let (cp, j2) = match decode_points3(w, j1) {
            Some(p) => p,
            None => {
                return None;
            },
        };
        Some((Curve2D::NurbsCurve(RationalCurve2 { knots: kn, control_points: cp }), j2))
    } else {
        None
    }
}

/// Value equality for spatial curves: the same active kind and a payload
/// identical word for word; a curve on a surface compares its underlying
/// curve and surface the same way.
pub open spec fn eqv_curve3(a: Curve3D, b: Curve3D) -> bool
    decreases a,
{
    match (a, b) {
        (Curve3D::Line(x), Curve3D::Line(y)) => x == y,
        (Curve3D::Polyline(x), Curve3D::Polyline(y)) => x.points@ == y.points@,
        (Curve3D::Conic(x), Curve3D::Conic(y)) => x == y,
        (Curve3D::BSplineCurve(x), Curve3D::BSplineCurve(y)) => x.knots@ == y.knots@
            && x.control_points@ == y.control_points@,
        (Curve3D::PCurve(x), Curve3D::PCurve(y)) => eqv_curve2(*x.curve, *y.curve)
            && eqv_surface(*x.surface, *y.surface),
        (Curve3D::NurbsCurve(x), Curve3D::NurbsCurve(y)) => x.knots@ == y.knots@
            && x.control_points@ == y.control_points@,
        _ => false,
    }
}

/// Value equality for swept surfaces.
pub open spec fn eqv_swept(a: SweptCurve, b: SweptCurve) -> bool
    decreases a,
{
    match (a, b) {
        (SweptCurve::ExtrudedCurve(x), SweptCurve::ExtrudedCurve(y)) => eqv_curve3(
            *x.curve,
            *y.curve,
        ) && x.vector == y.vector,
        (SweptCurve::RevolutedCurve(x), SweptCurve::RevolutedCurve(y)) => eqv_curve3(
            *x.curve,
            *y.curve,
        ) && x.origin == y.origin && x.axis == y.axis && x.placement == y.placement
            && x.orientation == y.orientation,
        _ => false,
    }
}

/// Value equality for surfaces.
pub open spec fn eqv_surface(a: Surface, b: Surface) -> bool
    decreases a,
{
    match (a, b) {
        (Surface::ElementarySurface(x), Surface::ElementarySurface(y)) => *x == *y,
        (Surface::SweptCurve(x), Surface::SweptCurve(y)) => eqv_swept(*x, *y),
        (Surface::BSplineSurface(x), Surface::BSplineSurface(y)) => x.u_knots@ == y.u_knots@
            && x.v_knots@ == y.v_knots@ && x.row_len == y.row_len && x.control_points@
            == y.control_points@,
        (Surface::NurbsSurface(x), Surface::NurbsSurface(y)) => x.u_knots@ == y.u_knots@
            && x.v_knots@ == y.v_knots@ && x.row_len == y.row_len && x.control_points@
            == y.control_points@,
        _ => false,
    }
}

/// A spatial curve encodes as a tag word for its kind, then its payload; a
/// curve on a surface carries its underlying curve and surface in turn.
pub open spec fn enc_curve3(c: Curve3D) -> Seq<u64>
    decreases c,
{
    match c {
        Curve3D::Line(l) => seq![0u64] + enc_line3(l),
        Curve3D::Polyline(p) => seq![1u64] + enc_points3(p.points@),
        Curve3D::Conic(k) => seq![2u64] + enc_conic3(k),
        Curve3D::BSplineCurve(b) => seq![3u64] + enc_words(b.knots@) + enc_points3(
            b.control_points@,
        ),
        Curve3D::PCurve(p) => seq![4u64] + enc_curve2(*p.curve) + enc_surface(*p.surface),
        Curve3D::NurbsCurve(n) => seq![5u64] + enc_words(n.knots@) + enc_points4(
            n.control_points@,
        ),
    }
}

/// The fixed tail of a revolved profile: origin, axis, placement and
/// orientation flag, 23 words.
pub open spec fn enc_revolution_tail(r: StepRevolutedCurve) -> Seq<u64> {
    seq![
        r.origin.x, r.origin.y, r.origin.z,
        r.axis.x, r.axis.y, r.axis.z,
        r.placement.r0.x, r.placement.r0.y, r.placement.r0.z, r.placement.r0.w,
        r.placement.r1.x, r.placement.r1.y, r.placement.r1.z, r.placement.r1.w,
        r.placement.r2.x, r.placement.r2.y, r.placement.r2.z, r.placement.r2.w,
        r.placement.r3.x, r.placement.r3.y, r.placement.r3.z, r.placement.r3.w,
        if r.orientation { 1u64 } else { 0u64 },
    ]
}

/// A swept surface encodes as a tag word, its profile curve, then the
/// sweep data.
pub open spec fn enc_swept(s: SweptCurve) -> Seq<u64>
    decreases s,
{
    match s {
        SweptCurve::ExtrudedCurve(e) => seq![0u64] + enc_curve3(*e.curve) + seq![
            e.vector.x,
            e.vector.y,
            e.vector.z,
        ],
        SweptCurve::RevolutedCurve(r) => seq![1u64] + enc_curve3(*r.curve)
            + enc_revolution_tail(r),
    }
}

/// A surface encodes as a tag word for its kind, then its payload; the
/// free-form kinds carry their grid row length, knot vectors and control
/// grid.
pub open spec fn enc_surface(s: Surface) -> Seq<u64>
    decreases s,
{
    match s {
        Surface::ElementarySurface(e) => seq![0u64] + enc_elementary(*e),
        Surface::SweptCurve(sw) => seq![1u64] + enc_swept(*sw),
        Surface::BSplineSurface(b) => seq![2u64, b.row_len as u64] + enc_words(b.u_knots@)
            + enc_words(b.v_knots@) + enc_points3(b.control_points@),
        Surface::NurbsSurface(n) => seq![3u64, n.row_len as u64] + enc_words(n.u_knots@)
            + enc_words(n.v_knots@) + enc_points4(n.control_points@),
    }
}

/// Appends the encoding of a spatial curve.
pub fn encode_curve3(c: &Curve3D, out: &mut Vec<u64>)
    ensures
        final(out)@ == old(out)@ + enc_curve3(*c),
    decreases *c,
{
    match c {
        Curve3D::Line(l) => {
            out.push(0);
            out.push(l.a.x);
            out.push(l.a.y);
            out.push(l.a.z);
            out.push(l.b.x);
            out.push(l.b.y);
            out.push(l.b.z);
        },
        Curve3D::Polyline(p) => {
            out.push(1);
            encode_points3(&p.points, out);
        },
        Curve3D::Conic(k) => {
            out.push(2);
            encode_conic3(k, out);
        },
        Curve3D::BSplineCurve(b) => {
            out.push(3);
            encode_words(&b.knots, out);
            encode_points3(&b.control_points, out);
        },
        Curve3D::PCurve(p) => {
            out.push(4);
            encode_curve2(&p.curve, out);
            encode_surface(&p.surface, out);
        },
        Curve3D::NurbsCurve(n) => {
            out.push(5);
            encode_words(&n.knots, out);
            encode_points4(&n.control_points, out);
        },
    }
    proof {
        assert(out@ =~= old(out)@ + enc_curve3(*c));
    }
}

/// Appends the encoding of a swept surface.
#[verifier::rlimit(60)]
pub fn encode_swept(sw: &SweptCurve, out: &mut Vec<u64>)
    ensures
        final(out)@ == old(out)@ + enc_swept(*sw),
    decreases *sw,
{
    match sw {
        SweptCurve::ExtrudedCurve(e) => {
            out.push(0);
            encode_curve3(&e.curve, out);
            out.push(e.vector.x);
            out.push(e.vector.y);
            out.push(e.vector.z);
        },
        SweptCurve::RevolutedCurve(r) => {
            out.push(1);
            encode_curve3(&r.curve, out);
            out.push(r.origin.x);
            out.push(r.origin.y);
            out.push(r.origin.z);
            out.push(r.axis.x);
            out.push(r.axis.y);
            out.push(r.axis.z);
            out.push(r.placement.r0.x);
            out.push(r.placement.r0.y);
            out.push(r.placement.r0.z);
            out.push(r.placement.r0.w);
            out.push(r.placement.r1.x);
            out.push(r.placement.r1.y);
            out.push(r.placement.r1.z);
            out.push(r.placement.r1.w);
            out.push(r.placement.r2.x);
            out.push(r.placement.r2.y);
            out.push(r.placement.r2.z);
            out.push(r.placement.r2.w);
            out.push(r.placement.r3.x);
            out.push(r.placement.r3.y);
            out.push(r.placement.r3.z);
            out.push(r.placement.r3.w);
            out.push(if r.orientation { 1 } else { 0 });
        },
    }
    proof {
        assert(out@ =~= old(out)@ + enc_swept(*sw));
    }
}

/// Appends the encoding of a surface.
pub fn encode_surface(s: &Surface, out: &mut Vec<u64>)
    ensures
        final(out)@ == old(out)@ + enc_surface(*s),
    decreases *s,
{
    match s {
        Surface::ElementarySurface(e) => {
            out.push(0);
            encode_elementary(e, out);
        },
        Surface::SweptCurve(sw) => {
            out.push(1);
            encode_swept(sw, out);
        },
        Surface::BSplineSurface(b) => {
            out.push(2);
            out.push(b.row_len as u64);
            encode_words(&b.u_knots, out);
            encode_words(&b.v_knots, out);
            encode_points3(&b.control_points, out);
        },
        Surface::NurbsSurface(n) => {
            out.push(3);
            out.push(n.row_len as u64);
            encode_words(&n.u_knots, out);
            encode_words(&n.v_knots, out);
            encode_points4(&n.control_points, out);
        },
    }
    proof {
        assert(out@ =~= old(out)@ + enc_surface(*s));
    }
}

/// Reads a spatial curve: whenever a curve's encoding starts at `i`, the
/// result is that curve, its kind and payload intact.
pub fn decode_curve3(w: &Vec<u64>, i: usize) -> (r: Option<(Curve3D, usize)>)
    requires
        i <= w@.len(),
    ensures
        r matches Some(p) ==> i < p.1 <= w@.len(),
        forall|v: Curve3D|
            starts_with(enc_curve3(v), w@.skip(i as int)) ==> (match r {
                Some(p) => eqv_curve3(p.0, v) && p.1 == i + enc_curve3(v).len(),
                None => false,
            }),
    decreases w@.len() - i,
{
    let ghost s = w@.skip(i as int);
    if i >= w.len() {
        proof {
            assert forall|v: Curve3D| !starts_with(enc_curve3(v), s) by {
                assert(enc_curve3(v).len() >= 1);
            }
        }
        return None;
    }
    proof {
        assert(s.skip(1) =~= w@.skip(i + 1));
    }
    let tag = w[i];
    proof {
        assert forall|v: Curve3D| starts_with(enc_curve3(v), s) implies (match v {
            Curve3D::Line(l0) => w@[i as int] == 0 && starts_with(enc_line3(l0), w@.skip(i + 1)),
            Curve3D::Polyline(p0) => w@[i as int] == 1 && starts_with(
                enc_points3(p0.points@),
                w@.skip(i + 1),
            ),
            Curve3D::Conic(k0) => w@[i as int] == 2 && starts_with(enc_conic3(k0), w@.skip(i + 1)),
            Curve3D::BSplineCurve(b0) => w@[i as int] == 3 && starts_with(
                enc_words(b0.knots@),
                w@.skip(i + 1),
            ) && starts_with(
                enc_points3(b0.control_points@),
                w@.skip(i + 1 + enc_words(b0.knots@).len()),
            ),
            Curve3D::PCurve(p0) => w@[i as int] == 4 && starts_with(
                enc_curve2(*p0.curve),
                w@.skip(i + 1),
            ) && starts_with(
                enc_surface(*p0.surface),
                w@.skip(i + 1 + enc_curve2(*p0.curve).len()),
            ),
            Curve3D::NurbsCurve(n0) => w@[i as int] == 5 && starts_with(
                enc_words(n0.knots@),
                w@.skip(i + 1),
            ) && starts_with(
                enc_points4(n0.control_points@),
                w@.skip(i + 1 + enc_words(n0.knots@).len()),
            ),
        }) by {
            let pre = enc_curve3(v);
            lemma_starts_with_tail(pre, s);
            match v {
                Curve3D::Line(l0) => {
                    assert(pre.skip(1) =~= enc_line3(l0));
                },
                Curve3D::Polyline(p0) => {
                    assert(pre.skip(1) =~= enc_points3(p0.points@));
                },
                Curve3D::Conic(k0) => {
                    assert(pre.skip(1) =~= enc_conic3(k0));
                },
                Curve3D::BSplineCurve(b0) => {
                    assert(pre.skip(1) =~= enc_words(b0.knots@) + enc_points3(
                        b0.control_points@,
                    ));
                    lemma_starts_with_split(
                        enc_words(b0.knots@),
                        enc_points3(b0.control_points@),
                        w@.skip(i + 1),
                    );
                    assert(w@.skip(i + 1).skip(enc_words(b0.knots@).len() as int) =~= w@.skip(
                        i + 1 + enc_words(b0.knots@).len(),
                    ));
                },
                Curve3D::PCurve(p0) => {
                    assert(pre.skip(1) =~= enc_curve2(*p0.curve) + enc_surface(*p0.surface));
                    lemma_starts_with_split(
                        enc_curve2(*p0.curve),
                        enc_surface(*p0.surface),
                        w@.skip(i + 1),
                    );
                    assert(w@.skip(i + 1).skip(enc_curve2(*p0.curve).len() as int) =~= w@.skip(
                        i + 1 + enc_curve2(*p0.curve).len(),
                    ));
                },
                Curve3D::NurbsCurve(n0) => {
                    assert(pre.skip(1) =~= enc_words(n0.knots@) + enc_points4(
                        n0.control_points@,
                    ));
                    lemma_starts_with_split(
                        enc_words(n0.knots@),
                        enc_points4(n0.control_points@),
                        w@.skip(i + 1),
                    );
                    assert(w@.skip(i + 1).skip(enc_words(n0.knots@).len() as int) =~= w@.skip(
                        i + 1 + enc_words(n0.knots@).len(),
                    ));
                },
            }
        }
    }
    if tag == 0 {
        if w.len() - (i + 1) < 6 {
            return None;
        }
        let l = Line3 {
            a: Point3 { x: w[i + 1], y: w[i + 2], z: w[i + 3] },
            b: Point3 { x: w[i + 4], y: w[i + 5], z: w[i + 6] },
        };
        proof {
            assert forall|v: Curve3D| starts_with(enc_curve3(v), s) implies (match v {
                Curve3D::Line(l0) => l0 == l,
                _ => false,
            }) by {
                if let Curve3D::Line(l0) = v {
                    let pe = enc_line3(l0);
                    let t = w@.skip(i + 1);
                    lemma_starts_with_index(pe, t, 0);
                    lemma_starts_with_index(pe, t, 1);
                    lemma_starts_with_index(pe, t, 2);
                    lemma_starts_with_index(pe, t, 3);
                    lemma_starts_with_index(pe, t, 4);
                    lemma_starts_with_index(pe, t, 5);
                }
            }
        }
        Some((Curve3D::Line(l), i + 7))
    } else if tag == 1 {
        match decode_points3(w, i + 1) {
            Some((pts, j)) => Some((Curve3D::Polyline(Polyline3 { points: pts }), j)),
            None => None,
        }
    } else if tag == 2 {
        match decode_conic3(w, i + 1) {
            Some((k, j)) => Some((Curve3D::Conic(k), j)),
            None => None,
        }
    } else if tag == 3 {
        let (kn, j1) = match decode_words(w, i + 1) {
            Some(p) => p,
            None => {
                return None;
            },
        };
        let (cp, j2) = match decode_points3(w, j1) {
            Some(p) => p,
            None => {
                return None;
            },
        };
        Some((Curve3D::BSplineCurve(BsplineCurve3 { knots: kn, control_points: cp }), j2))
    } else if tag == 4 {
        let (c2, j1) = match decode_curve2(w, i + 1) {
            Some(p) => p,
            None => {
                return None;
            },
        };
        let (sf, j2) = match decode_surface(w, j1) {
            Some(p) => p,
            None => {
                return None;
            },
        };
        Some((
            Curve3D::PCurve(PCurve { curve: Box::new(c2), surface: Box::new(sf) }),
            j2,
        ))
    } else if tag == 5 {
        let (kn, j1) = match decode_words(w, i + 1) {
            Some(p) => p,
            None => {
                return None;
            },
        };
        let (cp, j2) = match decode_points4(w, j1) {
            Some(p) => p,
            None => {
                return None;
            },
        };
        Some((Curve3D::NurbsCurve(RationalCurve3 { knots: kn, control_points: cp }), j2))
    } else {
        None
    }
}

/// Reads a swept surface.
#[verifier::rlimit(100)]
pub fn decode_swept(w: &Vec<u64>, i: usize) -> (r: Option<(SweptCurve, usize)>)
    requires
        i <= w@.len(),
    ensures
        r matches Some(p) ==> i < p.1 <= w@.len(),
        forall|v: SweptCurve|
            starts_with(enc_swept(v), w@.skip(i as int)) ==> (match r {
                Some(p) => eqv_swept(p.0, v) && p.1 == i + enc_swept(v).len(),
                None => false,
            }),
    decreases w@.len() - i,
{
    let ghost s = w@.skip(i as int);
    if i >= w.len() {
        proof {
            assert forall|v: SweptCurve| !starts_with(enc_swept(v), s) by {
                assert(enc_swept(v).len() >= 1);
            }
        }
        return None;
    }
    proof {
        assert(s.skip(1) =~= w@.skip(i + 1));
    }
    let tag = w[i];
    proof {
        assert forall|v: SweptCurve| starts_with(enc_swept(v), s) implies (match v {
            SweptCurve::ExtrudedCurve(e0) => w@[i as int] == 0 && starts_with(
                enc_curve3(*e0.curve),
                w@.skip(i + 1),
            ) && starts_with(
                seq![e0.vector.x, e0.vector.y, e0.vector.z],
                w@.skip(i + 1 + enc_curve3(*e0.curve).len()),
            ),
            SweptCurve::RevolutedCurve(r0) => w@[i as int] == 1 && starts_with(
                enc_curve3(*r0.curve),
                w@.skip(i + 1),
            ) && starts_with(
                enc_revolution_tail(r0),
                w@.skip(i + 1 + enc_curve3(*r0.curve).len()),
            ),
        }) by {
            let pre = enc_swept(v);
            lemma_starts_with_tail(pre, s);
            match v {
                SweptCurve::ExtrudedCurve(e0) => {
                    assert(pre.skip(1) =~= enc_curve3(*e0.curve) + seq![
                        e0.vector.x,
                        e0.vector.y,
                        e0.vector.z,
                    ]);
                    lemma_starts_with_split(
                        enc_curve3(*e0.curve),
                        seq![e0.vector.x, e0.vector.y, e0.vector.z],
                        w@.skip(i + 1),
                    );
                    assert(w@.skip(i + 1).skip(enc_curve3(*e0.curve).len() as int) =~= w@.skip(
                        i + 1 + enc_curve3(*e0.curve).len(),
                    ));
                },
                SweptCurve::RevolutedCurve(r0) => {
                    assert(pre.skip(1) =~= enc_curve3(*r0.curve) + enc_revolution_tail(r0));
                    lemma_starts_with_split(
                        enc_curve3(*r0.curve),
                        enc_revolution_tail(r0),
                        w@.skip(i + 1),
                    );
                    assert(w@.skip(i + 1).skip(enc_curve3(*r0.curve).len() as int) =~= w@.skip(
                        i + 1 + enc_curve3(*r0.curve).len(),
                    ));
                },
            }
        }
    }
    if tag == 0 {
        let (c3, j1) = match decode_curve3(w, i + 1) {
            Some(p) => p,
            None => {
                return None;
            },
        };
        if w.len() - j1 < 3 {
            return None;
        }
        let vec3 = Point3 { x: w[j1], y: w[j1 + 1], z: w[j1 + 2] };
        proof {
            assert forall|v: SweptCurve| starts_with(enc_swept(v), s) implies (match v {
                SweptCurve::ExtrudedCurve(e0) => e0.vector == vec3,
                _ => false,
            }) by {
                if let SweptCurve::ExtrudedCurve(e0) = v {
                    let pe = seq![e0.vector.x, e0.vector.y, e0.vector.z];
                    let t = w@.skip(j1 as int);
                    lemma_starts_with_index(pe, t, 0);
                    lemma_starts_with_index(pe, t, 1);
                    lemma_starts_with_index(pe, t, 2);
                }
            }
        }
        Some((
            SweptCurve::ExtrudedCurve(StepExtrudedCurve { curve: Box::new(c3), vector: vec3 }),
            j1 + 3,
        ))
    } else if tag == 1 {
        let (c3, j1) = match decode_curve3(w, i + 1) {
            Some(p) => p,
            None => {
                return None;
            },
        };
        if w.len() - j1 < 23 {
            return None;
        }
        let rv = StepRevolutedCurve {
            curve: Box::new(c3),
            origin: Point3 { x: w[j1], y: w[j1 + 1], z: w[j1 + 2] },
            axis: Point3 { x: w[j1 + 3], y: w[j1 + 4], z: w[j1 + 5] },
            placement: Matrix4 {
                r0: Point4 { x: w[j1 + 6], y: w[j1 + 7], z: w[j1 + 8], w: w[j1 + 9] },
                r1: Point4 { x: w[j1 + 10], y: w[j1 + 11], z: w[j1 + 12], w: w[j1 + 13] },
                r2: Point4 { x: w[j1 + 14], y: w[j1 + 15], z: w[j1 + 16], w: w[j1 + 17] },
                r3: Point4 { x: w[j1 + 18], y: w[j1 + 19], z: w[j1 + 20], w: w[j1 + 21] },
            },
            orientation: w[j1 + 22] == 1,
        };
        proof {
            assert forall|v: SweptCurve| starts_with(enc_swept(v), s) implies (match v {
                SweptCurve::RevolutedCurve(r0) => r0.origin == rv.origin && r0.axis == rv.axis
                    && r0.placement == rv.placement && r0.orientation == rv.orientation,
                _ => false,
            }) by {
                if let SweptCurve::RevolutedCurve(r0) = v {
                    let pe = enc_revolution_tail(r0);
                    let t = w@.skip(j1 as int);
                    assert(pe.len() == 23);
                    assert forall|k: int| 0 <= k < 23 implies pe[k] == t[k] by {
                        lemma_starts_with_index(pe, t, k);
                    }
                    assert(pe[0] == t[0] && pe[1] == t[1] && pe[2] == t[2] && pe[3] == t[3]
                        && pe[4] == t[4] && pe[5] == t[5] && pe[6] == t[6] && pe[7] == t[7]
                        && pe[8] == t[8] && pe[9] == t[9] && pe[10] == t[10] && pe[11] == t[11]
                        && pe[12] == t[12] && pe[13] == t[13] && pe[14] == t[14] && pe[15] == t[15]
                        && pe[16] == t[16] && pe[17] == t[17] && pe[18] == t[18] && pe[19] == t[19]
                        && pe[20] == t[20] && pe[21] == t[21] && pe[22] == t[22]);
                }
            }
        }
        Some((SweptCurve::RevolutedCurve(rv), j1 + 23))
    } else {
        None
    }
}

/// Reads a surface: whenever a surface's encoding starts at `i`, the
/// result is that surface, its kind and payload intact.
pub fn decode_surface(w: &Vec<u64>, i: usize) -> (r: Option<(Surface, usize)>)
    requires
        i <= w@.len(),
    ensures
        r matches Some(p) ==> i < p.1 <= w@.len(),
        forall|v: Surface|
            starts_with(enc_surface(v), w@.skip(i as int)) ==> (match r {
                Some(p) => eqv_surface(p.0, v) && p.1 == i + enc_surface(v).len(),
                None => false,
            }),
    decreases w@.len() - i,
{
    let ghost s = w@.skip(i as int);
    if i >= w.len() {
        proof {
            assert forall|v: Surface| !starts_with(enc_surface(v), s) by {
                assert(enc_surface(v).len() >= 1);
            }
        }
        return None;
    }
    proof {
        assert(s.skip(1) =~= w@.skip(i + 1));
    }
    let tag = w[i];
    proof {
        assert forall|v: Surface| starts_with(enc_surface(v), s) implies (match v {
            Surface::ElementarySurface(e0) => w@[i as int] == 0 && starts_with(
                enc_elementary(*e0),
                w@.skip(i + 1),
            ),
            Surface::SweptCurve(sw0) => w@[i as int] == 1 && starts_with(
                enc_swept(*sw0),
                w@.skip(i + 1),
            ),
            Surface::BSplineSurface(b0) => w@[i as int] == 2 && w@.skip(i + 1).len() >= 1
                && w@[i + 1] == b0.row_len as u64 && starts_with(
                enc_words(b0.u_knots@),
                w@.skip(i + 2),
            ) && starts_with(
                enc_words(b0.v_knots@),
                w@.skip(i + 2 + enc_words(b0.u_knots@).len()),
            ) && starts_with(
                enc_points3(b0.control_points@),
                w@.skip(i + 2 + enc_words(b0.u_knots@).len() + enc_words(b0.v_knots@).len()),
            ),
            Surface::NurbsSurface(n0) => w@[i as int] == 3 && w@.skip(i + 1).len() >= 1
                && w@[i + 1] == n0.row_len as u64 && starts_with(
                enc_words(n0.u_knots@),
                w@.skip(i + 2),
            ) && starts_with(
                enc_words(n0.v_knots@),
                w@.skip(i + 2 + enc_words(n0.u_knots@).len()),
            ) && starts_with(
                enc_points4(n0.control_points@),
                w@.skip(i + 2 + enc_words(n0.u_knots@).len() + enc_words(n0.v_knots@).len()),
            ),
        }) by {
            let pre = enc_surface(v);
            lemma_starts_with_tail(pre, s);
            match v {
                Surface::ElementarySurface(e0) => {
                    assert(pre.skip(1) =~= enc_elementary(*e0));
                },
                Surface::SweptCurve(sw0) => {
                    assert(pre.skip(1) =~= enc_swept(*sw0));
                },
                Surface::BSplineSurface(b0) => {
                    assert(pre.skip(1) =~= seq![b0.row_len as u64] + (enc_words(b0.u_knots@)
                        + enc_words(b0.v_knots@) + enc_points3(b0.control_points@)));
                    lemma_starts_with_tail(
                        seq![b0.row_len as u64] + (enc_words(b0.u_knots@) + enc_words(
                            b0.v_knots@,
                        ) + enc_points3(b0.control_points@)),
                        w@.skip(i + 1),
                    );
                    assert(w@.skip(i + 1).skip(1) =~= w@.skip(i + 2));
                    assert((seq![b0.row_len as u64] + (enc_words(b0.u_knots@) + enc_words(
                        b0.v_knots@,
                    ) + enc_points3(b0.control_points@))).skip(1) =~= enc_words(b0.u_knots@)
                        + enc_words(b0.v_knots@) + enc_points3(b0.control_points@));
                    lemma_starts_with_split(
                        enc_words(b0.u_knots@) + enc_words(b0.v_knots@),
                        enc_points3(b0.control_points@),
                        w@.skip(i + 2),
                    );
                    lemma_starts_with_split(
                        enc_words(b0.u_knots@),
                        enc_words(b0.v_knots@),
                        w@.skip(i + 2),
                    );
                    assert(w@.skip(i + 2).skip(enc_words(b0.u_knots@).len() as int) =~= w@.skip(
                        i + 2 + enc_words(b0.u_knots@).len(),
                    ));
                    assert(w@.skip(i + 2).skip((enc_words(b0.u_knots@) + enc_words(
                        b0.v_knots@,
                    )).len() as int) =~= w@.skip(
                        i + 2 + enc_words(b0.u_knots@).len() + enc_words(b0.v_knots@).len(),
                    ));
                },
                Surface::NurbsSurface(n0) => {
                    assert(pre.skip(1) =~= seq![n0.row_len as u64] + (enc_words(n0.u_knots@)
                        + enc_words(n0.v_knots@) + enc_points4(n0.control_points@)));
                    lemma_starts_with_tail(
                        seq![n0.row_len as u64] + (enc_words(n0.u_knots@) + enc_words(
                            n0.v_knots@,
                        ) + enc_points4(n0.control_points@)),
                        w@.skip(i + 1),
                    );
                    assert(w@.skip(i + 1).skip(1) =~= w@.skip(i + 2));
                    assert((seq![n0.row_len as u64] + (enc_words(n0.u_knots@) + enc_words(
                        n0.v_knots@,
                    ) + enc_points4(n0.control_points@))).skip(1) =~= enc_words(n0.u_knots@)
                        + enc_words(n0.v_knots@) + enc_points4(n0.control_points@));
                    lemma_starts_with_split(
                        enc_words(n0.u_knots@) + enc_words(n0.v_knots@),
                        enc_points4(n0.control_points@),
                        w@.skip(i + 2),
                    );
                    lemma_starts_with_split(
                        enc_words(n0.u_knots@),
                        enc_words(n0.v_knots@),
                        w@.skip(i + 2),
                    );
                    assert(w@.skip(i + 2).skip(enc_words(n0.u_knots@).len() as int) =~= w@.skip(
                        i + 2 + enc_words(n0.u_knots@).len(),
                    ));
                    assert(w@.skip(i + 2).skip((enc_words(n0.u_knots@) + enc_words(
                        n0.v_knots@,
                    )).len() as int) =~= w@.skip(
                        i + 2 + enc_words(n0.u_knots@).len() + enc_words(n0.v_knots@).len(),
                    ));
                },
            }
        }
    }
    if tag == 0 {
        match decode_elementary(w, i + 1) {
            Some((e, j)) => Some((Surface::ElementarySurface(Box::new(e)), j)),
            None => None,
        }
    } else if tag == 1 {
        match decode_swept(w, i + 1) {
            Some((sw, j)) => Some((Surface::SweptCurve(Box::new(sw)), j)),
            None => None,
        }
    } else if tag == 2 {
        if w.len() - (i + 1) < 1 {
            return None;
        }
        let rl64 = w[i + 1];
        let rl: usize = rl64 as usize;
        let (uk, j1) = match decode_words(w, i + 2) {
            Some(p) => p,
            None => {
                return None;
            },
        };
        let (vk, j2) = match decode_words(w, j1) {
            Some(p) => p,
            None => {
                return None;
            },
        };
        let (cp, j3) = match decode_points3(w, j2) {
            Some(p) => p,
            None => {
                return None;
            },
        };
        proof {
            assert forall|v: Surface| starts_with(enc_surface(v), s) implies (match v {
                Surface::BSplineSurface(b0) => b0.row_len == rl,
                _ => false,
            }) by {
                if let Surface::BSplineSurface(b0) = v {
                    assert(b0.row_len as u64 == rl64);
                }
            }
        }
        Some((
            Surface::BSplineSurface(
                Box::new(
                    BsplineSurface { u_knots: uk, v_knots: vk, row_len: rl, control_points: cp },
                ),
            ),
            j3,
        ))
    } else if tag == 3 {
        if w.len() - (i + 1) < 1 {
            return None;
        }
        let rl64 = w[i + 1];
        let rl: usize = rl64 as usize;
        let (uk, j1) = match decode_words(w, i + 2) {
            Some(p) => p,
            None => {
                return None;
            },
        };
        let (vk, j2) = match decode_words(w, j1) {
            Some(p) => p,
            None => {
                return None;
            },
        };
        let (cp, j3) = match decode_points4(w, j2) {
            Some(p) => p,
            None => {
                return None;
            },
        };
        proof {
            assert forall|v: Surface| starts_with(enc_surface(v), s) implies (match v {
                Surface::NurbsSurface(n0) => n0.row_len == rl,
                _ => false,
            }) by {
                if let Surface::NurbsSurface(n0) = v {
                    assert(n0.row_len as u64 == rl64);
                }
            }
        }
        Some((
            Surface::NurbsSurface(
                Box::new(
                    RationalSurface { u_knots: uk, v_knots: vk, row_len: rl, control_points: cp },
                ),
            ),
            j3,
        ))
    } else {
        None
    }
}

} // verus!
