//! Primitive geometric kernels, exact over fixed-point coordinates.
//!
//! Distances are reported through the integer square root (`sqrt_floor`)
//! and divisions round toward zero, so every kernel's result is pinned by
//! its contract.

use vstd::prelude::*;
use crate::contact::Contact;
use crate::math::{
    div_toward_zero, div_tz, dist2, dot, in_range, isqrt, sqrt_floor, Vec3, V3, COORD_MAX,
};
use crate::shape::SimpleShape;

verus! {

/// Proximity status of a pair of shapes.
#[derive(Clone, Copy, PartialEq, Eq, Structural, Debug)]
pub enum Proximity {
    Intersecting,
    WithinMargin,
    Disjoint,
}

/// The point at distance-fraction `t / dist` from `c` along `d`,
/// componentwise, with division rounding toward zero.
pub open spec fn point_toward(c: V3, d: V3, t: int, dist: int) -> V3 {
    V3 {
        x: c.x + div_toward_zero(t * d.x, dist),
        y: c.y + div_toward_zero(t * d.y, dist),
        z: c.z + div_toward_zero(t * d.z, dist),
    }
}

/// A ball-ball contact is emitted iff the centre distance does not exceed
/// the radii plus the prediction band.
pub open spec fn ball_ball_emitted(ca: V3, ra: int, cb: V3, rb: int, pred: int) -> bool {
    sqrt_floor(cb.sub(ca).norm2()) <= ra + rb + pred
}

/// Depth of a ball-ball contact: radii sum minus centre distance.
pub open spec fn ball_ball_depth(ca: V3, ra: int, cb: V3, rb: int) -> int {
    ra + rb - sqrt_floor(cb.sub(ca).norm2())
}

/// Contact between two balls given by centre and radius.  The normal is the
/// exact centre-to-centre direction (a fixed axis when the centres
/// coincide); the contact points sit on each sphere along the normal.
pub fn ball_ball_contact(ca: &Vec3, ra: i64, cb: &Vec3, rb: i64, prediction: i64) -> (r: Option<
    Contact,
>)
    requires
        ca.wf(),
        cb.wf(),
        0 < ra <= COORD_MAX as int,
        0 < rb <= COORD_MAX as int,
        0 <= prediction <= COORD_MAX as int,
    ensures
        r.is_some() <==> ball_ball_emitted(ca.view(), ra as int, cb.view(), rb as int, prediction as int),
        r.is_some() ==> r.unwrap().depth as int == ball_ball_depth(
            ca.view(),
            ra as int,
            cb.view(),
            rb as int,
        ),
        r.is_some() && cb.view().sub(ca.view()).norm2() > 0 ==> r.unwrap().normal.view()
            == cb.view().sub(ca.view()) && r.unwrap().world1.view() == point_toward(
            ca.view(),
            cb.view().sub(ca.view()),
            ra as int,
            sqrt_floor(cb.view().sub(ca.view()).norm2()),
        ) && r.unwrap().world2.view() == point_toward(
            cb.view(),
            cb.view().sub(ca.view()),
            -rb as int,
            sqrt_floor(cb.view().sub(ca.view()).norm2()),
        ),
        r.is_some() && cb.view().sub(ca.view()).norm2() == 0 ==> r.unwrap().normal.view() == (V3 {
            x: 0,
            y: 1,
            z: 0,
        }) && r.unwrap().world1.view() == (V3 { x: ca.view().x, y: ca.view().y + ra, z: ca.view().z })
            && r.unwrap().world2.view() == (V3 {
            x: cb.view().x,
            y: cb.view().y - rb,
            z: cb.view().z,
        }),
        r.is_some() ==> r.unwrap().wf(),
{
    let d = cb.sub(*ca);
    let d2 = dot(d, d);
    proof {
        crate::math::lemma_square_nonneg(d.view().x);
        crate::math::lemma_square_nonneg(d.view().y);
        crate::math::lemma_square_nonneg(d.view().z);
    }
    let dist = isqrt(d2);
    let reach = ra + rb + prediction;
    if dist > reach {
        return None;
    }
    if d2 == 0 {
        proof {
            assert(sqrt_floor(0int) == 0) by {
                crate::math::lemma_sqrt_floor_exists(0);
                crate::math::lemma_sqrt_floor_unique(0, sqrt_floor(0int), 0);
            }
        }
        Some(
            Contact {
                world1: Vec3 { x: ca.x, y: ca.y + ra, z: ca.z },
                world2: Vec3 { x: cb.x, y: cb.y - rb, z: cb.z },
                normal: Vec3 { x: 0, y: 1, z: 0 },
                depth: ra + rb,
            },
        )
    } else {
        proof {
            if dist == 0 {
                assert(d2 < (0 + 1) * (0 + 1));
            }
            if d.view().is_zero() {
                assert(d.view().norm2() == 0) by (nonlinear_arith)
                    requires
                        d.view().is_zero(),
                ;
            }
            lemma_component_le_sqrt(d.view(), d2 as int);
            lemma_scale_div_bound(ra as int, d.view().x, dist as int);
            lemma_scale_div_bound(ra as int, d.view().y, dist as int);
            lemma_scale_div_bound(ra as int, d.view().z, dist as int);
            lemma_scale_div_bound(-rb as int, d.view().x, dist as int);
            lemma_scale_div_bound(-rb as int, d.view().y, dist as int);
            lemma_scale_div_bound(-rb as int, d.view().z, dist as int);
        }
        let w1 = Vec3 {
            x: ca.x + div_tz(mul_in_range(ra, d.x), dist),
            y: ca.y + div_tz(mul_in_range(ra, d.y), dist),
            z: ca.z + div_tz(mul_in_range(ra, d.z), dist),
        };
        let w2 = Vec3 {
            x: cb.x + div_tz(mul_in_range(-rb, d.x), dist),
            y: cb.y + div_tz(mul_in_range(-rb, d.y), dist),
            z: cb.z + div_tz(mul_in_range(-rb, d.z), dist),
        };
        Some(Contact { world1: w1, world2: w2, normal: d, depth: ra + rb - dist })
    }
}

/// A component no longer than the divisor, scaled by `t`, divides back to
/// a quotient no larger than `t` in magnitude.
pub proof fn lemma_scale_div_bound(t: int, c: int, dist: int)
    requires
        dist >= 1,
        -dist <= c <= dist,
        -(COORD_MAX as int) <= t <= COORD_MAX as int,
    ensures
        -(COORD_MAX as int) <= div_toward_zero(t * c, dist) <= COORD_MAX as int,
        -(COORD_MAX as int) <= div_toward_zero(c * t, dist) <= COORD_MAX as int,
{
    let m = if t >= 0 {
        t
    } else {
        -t
    };
    assert(-(m * dist) <= t * c <= m * dist && t * c == c * t) by (nonlinear_arith)
        requires
            0 <= m,
            -m <= t <= m,
            -dist <= c <= dist,
            dist >= 1,
    ;
    crate::math::lemma_div_tz_bound(t * c, dist, m);
}

/// Product of two factors bounded by the coordinate range and twice the
/// coordinate range respectively.
fn mul_in_range(a: i64, b: i64) -> (r: i64)
    requires
        -(COORD_MAX as int) <= a <= COORD_MAX as int,
        -2 * (COORD_MAX as int) <= b <= 2 * (COORD_MAX as int),
    ensures
        r as int == a as int * b as int,
        -1_000_000_000_000_000_000 <= r <= 1_000_000_000_000_000_000,
{
    proof {
        crate::math::lemma_mul_bound(a as int, b as int, 2 * (COORD_MAX as int));
        assert(2 * (COORD_MAX as int) * (2 * (COORD_MAX as int)) == 1_000_000_000_000_000_000int)
            by (nonlinear_arith);
    }
    a * b
}

/// Proximity of two balls: intersecting within the radii sum, within margin
/// inside the margin band, disjoint beyond it.
pub open spec fn ball_ball_proximity_spec(ca: V3, ra: int, cb: V3, rb: int, margin: int) -> Proximity {
    let dist = sqrt_floor(cb.sub(ca).norm2());
    if dist <= ra + rb {
        Proximity::Intersecting
    } else if dist <= ra + rb + margin {
        Proximity::WithinMargin
    } else {
        Proximity::Disjoint
    }
}

pub fn ball_ball_proximity(ca: &Vec3, ra: i64, cb: &Vec3, rb: i64, margin: i64) -> (r: Proximity)
    requires
        ca.wf(),
        cb.wf(),
        0 < ra <= COORD_MAX as int,
        0 < rb <= COORD_MAX as int,
        0 <= margin <= COORD_MAX as int,
    ensures
        r == ball_ball_proximity_spec(ca.view(), ra as int, cb.view(), rb as int, margin as int),
{
    let d2 = dist2(*ca, *cb);
    let dist = isqrt(d2);
    if dist <= ra + rb {
        Proximity::Intersecting
    } else if dist <= ra + rb + margin {
        Proximity::WithinMargin
    } else {
        Proximity::Disjoint
    }
}

/// Support point of a cuboid in a given direction: the corner whose
/// coordinate is largest along each axis of the direction (the upper corner
/// on a zero component).
pub open spec fn cuboid_support_spec(mins: V3, maxs: V3, pose: V3, dir: V3) -> V3 {
    V3 {
        x: (if dir.x >= 0 {
            maxs.x
        } else {
            mins.x
        }) + pose.x,
        y: (if dir.y >= 0 {
            maxs.y
        } else {
            mins.y
        }) + pose.y,
        z: (if dir.z >= 0 {
            maxs.z
        } else {
            mins.z
        }) + pose.z,
    }
}

pub fn cuboid_support(mins: &Vec3, maxs: &Vec3, pose: &Vec3, dir: &Vec3) -> (r: Vec3)
    requires
        mins.wf(),
        maxs.wf(),
        pose.wf(),
    ensures
        r.view() == cuboid_support_spec(mins.view(), maxs.view(), pose.view(), dir.view()),
{
    Vec3 {
        x: (if dir.x >= 0 {
            maxs.x
        } else {
            mins.x
        }) + pose.x,
        y: (if dir.y >= 0 {
            maxs.y
        } else {
            mins.y
        }) + pose.y,
        z: (if dir.z >= 0 {
            maxs.z
        } else {
            mins.z
        }) + pose.z,
    }
}

/// Signed distance from the plane through `origin` with normal direction
/// `n` to the point `p`, in length units of the normalised normal, rounded
/// toward zero.
pub open spec fn plane_point_sdist(n: V3, origin: V3, p: V3) -> int {
    div_toward_zero(n.dot(p.sub(origin)), sqrt_floor(n.norm2()))
}

/// Exact plane signed distance.  The point may lie up to twice the
/// coordinate range out (a supported point of a posed shape qualifies).
pub fn plane_sdist(normal: &Vec3, origin: &Vec3, p: &Vec3) -> (sd: i64)
    requires
        normal.wf(),
        !normal.view().is_zero(),
        origin.wf(),
        -2 * (COORD_MAX as int) <= p.view().x <= 2 * (COORD_MAX as int),
        -2 * (COORD_MAX as int) <= p.view().y <= 2 * (COORD_MAX as int),
        -2 * (COORD_MAX as int) <= p.view().z <= 2 * (COORD_MAX as int),
    ensures
        sd as int == plane_point_sdist(normal.view(), origin.view(), p.view()),
        -5_000_000_000 <= sd <= 5_000_000_000,
{
    let n2 = dot(*normal, *normal);
    proof {
        lemma_norm2_pos(normal.view());
    }
    let nf = isqrt(n2);
    proof {
        lemma_component_le_sqrt(normal.view(), n2 as int);
        assert(nf >= 1) by {
            assert(nf * nf <= n2);
            if nf == 0 {
                assert(0 * 0 == 0) by (nonlinear_arith);
            }
        }
    }
    let dx = p.x - origin.x;
    let dy = p.y - origin.y;
    let dz = p.z - origin.z;
    let s = dot(*normal, Vec3 { x: dx, y: dy, z: dz });
    proof {
        let nv = normal.view();
        let dv = V3 { x: dx as int, y: dy as int, z: dz as int };
        assert(-(nf as int) * (3 * (COORD_MAX as int)) <= nv.x * dv.x <= (nf as int) * (3 * (
        COORD_MAX as int))) by (nonlinear_arith)
            requires
                -(nf as int) <= nv.x <= nf as int,
                -3 * (COORD_MAX as int) <= dv.x <= 3 * (COORD_MAX as int),
                nf >= 0,
        ;
        assert(-(nf as int) * (3 * (COORD_MAX as int)) <= nv.y * dv.y <= (nf as int) * (3 * (
        COORD_MAX as int))) by (nonlinear_arith)
            requires
                -(nf as int) <= nv.y <= nf as int,
                -3 * (COORD_MAX as int) <= dv.y <= 3 * (COORD_MAX as int),
                nf >= 0,
        ;
        assert(-(nf as int) * (3 * (COORD_MAX as int)) <= nv.z * dv.z <= (nf as int) * (3 * (
        COORD_MAX as int))) by (nonlinear_arith)
            requires
                -(nf as int) <= nv.z <= nf as int,
                -3 * (COORD_MAX as int) <= dv.z <= 3 * (COORD_MAX as int),
                nf >= 0,
        ;
        assert((nf as int) * (9 * (COORD_MAX as int)) == 9 * (COORD_MAX as int) * (nf as int))
            by (nonlinear_arith);
        assert(3 * ((nf as int) * (3 * (COORD_MAX as int))) == (nf as int) * (9 * (COORD_MAX as int)))
            by (nonlinear_arith);
        crate::math::lemma_div_tz_bound(s as int, nf as int, 9 * (COORD_MAX as int));
    }
    div_tz(s, nf)
}

/// A non-zero vector has positive squared norm.
pub proof fn lemma_norm2_pos(v: V3)
    requires
        !v.is_zero(),
    ensures
        v.norm2() > 0,
{
    assert(v.x * v.x + v.y * v.y + v.z * v.z > 0) by (nonlinear_arith)
        requires
            v.x != 0 || v.y != 0 || v.z != 0,
    ;
}

/// Each component of a vector is bounded in magnitude by the floor square
/// root of its squared norm.
pub proof fn lemma_component_le_sqrt(v: V3, n2: int)
    requires
        n2 == v.norm2(),
        n2 >= 0,
    ensures
        -sqrt_floor(n2) <= v.x <= sqrt_floor(n2),
        -sqrt_floor(n2) <= v.y <= sqrt_floor(n2),
        -sqrt_floor(n2) <= v.z <= sqrt_floor(n2),
{
    crate::math::lemma_sqrt_floor_exists(n2);
    let r = sqrt_floor(n2);
    assert(-r <= v.x <= r && -r <= v.y <= r && -r <= v.z <= r) by (nonlinear_arith)
        requires
            0 <= r,
            r * r <= n2,
            n2 < (r + 1) * (r + 1),
            n2 == v.x * v.x + v.y * v.y + v.z * v.z,
    ;
}

/// A ball-box contact is emitted iff the ball centre is inside the box or
/// within radius-plus-prediction of its closest point.
pub open spec fn ball_box_emitted(c: V3, r: int, lo: V3, hi: V3, pred: int) -> bool {
    let d2 = clamp_point(c, lo, hi).sub(c).norm2();
    d2 == 0 || sqrt_floor(d2) - r <= pred
}

/// The exit face when the centre is inside the box: 0..6 enumerate
/// x+, x-, y+, y-, z+ and z-, and the first face of minimal clearance
/// wins.
pub open spec fn box_exit_face(c: V3, lo: V3, hi: V3) -> int {
    let mxp = hi.x - c.x;
    let mxn = c.x - lo.x;
    let myp = hi.y - c.y;
    let myn = c.y - lo.y;
    let mzp = hi.z - c.z;
    let mzn = c.z - lo.z;
    if mxp <= mxn && mxp <= myp && mxp <= myn && mxp <= mzp && mxp <= mzn {
        0
    } else if mxn <= myp && mxn <= myn && mxn <= mzp && mxn <= mzn {
        1
    } else if myp <= myn && myp <= mzp && myp <= mzn {
        2
    } else if myn <= mzp && myn <= mzn {
        3
    } else if mzp <= mzn {
        4
    } else {
        5
    }
}

/// Clearance to the exit face.
pub open spec fn box_exit_clearance(c: V3, lo: V3, hi: V3) -> int {
    let f = box_exit_face(c, lo, hi);
    if f == 0 {
        hi.x - c.x
    } else if f == 1 {
        c.x - lo.x
    } else if f == 2 {
        hi.y - c.y
    } else if f == 3 {
        c.y - lo.y
    } else if f == 4 {
        hi.z - c.z
    } else {
        c.z - lo.z
    }
}

/// Outward unit direction of the exit face.
pub open spec fn box_exit_dir(c: V3, lo: V3, hi: V3) -> V3 {
    let f = box_exit_face(c, lo, hi);
    if f == 0 {
        V3 { x: 1, y: 0, z: 0 }
    } else if f == 1 {
        V3 { x: -1, y: 0, z: 0 }
    } else if f == 2 {
        V3 { x: 0, y: 1, z: 0 }
    } else if f == 3 {
        V3 { x: 0, y: -1, z: 0 }
    } else if f == 4 {
        V3 { x: 0, y: 0, z: 1 }
    } else {
        V3 { x: 0, y: 0, z: -1 }
    }
}

/// Contact between a ball (first body) and a world-frame box (second
/// body).  Outside the box the normal is the exact centre-to-closest-point
/// direction; inside it is the outward axis of the face with least
/// clearance, and the depth grows by that clearance.
pub fn ball_box_contact(c: &Vec3, r: i64, lo: &Vec3, hi: &Vec3, prediction: i64) -> (out: Option<
    Contact,
>)
    requires
        c.wf(),
        0 < r <= COORD_MAX as int,
        -2 * (COORD_MAX as int) <= lo.view().x <= 2 * (COORD_MAX as int),
        -2 * (COORD_MAX as int) <= lo.view().y <= 2 * (COORD_MAX as int),
        -2 * (COORD_MAX as int) <= lo.view().z <= 2 * (COORD_MAX as int),
        -2 * (COORD_MAX as int) <= hi.view().x <= 2 * (COORD_MAX as int),
        -2 * (COORD_MAX as int) <= hi.view().y <= 2 * (COORD_MAX as int),
        -2 * (COORD_MAX as int) <= hi.view().z <= 2 * (COORD_MAX as int),
        lo.view().x <= hi.view().x,
        lo.view().y <= hi.view().y,
        lo.view().z <= hi.view().z,
        0 <= prediction <= COORD_MAX as int,
    ensures
        out.is_some() <==> ball_box_emitted(
            c.view(),
            r as int,
            lo.view(),
            hi.view(),
            prediction as int,
        ),
        out.is_some() ==> out.unwrap().wf(),
        ({
            let q = clamp_point(c.view(), lo.view(), hi.view());
            let d2 = q.sub(c.view()).norm2();
            out.is_some() && d2 > 0 ==> out.unwrap().normal.view() == q.sub(c.view())
                && out.unwrap().depth as int == r - sqrt_floor(d2) && out.unwrap().world2.view()
                == q && out.unwrap().world1.view() == point_toward(
                c.view(),
                q.sub(c.view()),
                r as int,
                sqrt_floor(d2),
            )
        }),
        ({
            let q = clamp_point(c.view(), lo.view(), hi.view());
            let d2 = q.sub(c.view()).norm2();
            let e = box_exit_dir(c.view(), lo.view(), hi.view());
            out.is_some() && d2 == 0 ==> out.unwrap().normal.view() == e && out.unwrap().depth as int
                == r + box_exit_clearance(c.view(), lo.view(), hi.view())
                && out.unwrap().world1.view() == (V3 {
                x: c.view().x + r * e.x,
                y: c.view().y + r * e.y,
                z: c.view().z + r * e.z,
            }) && out.unwrap().world2.view() == (V3 {
                x: c.view().x + box_exit_clearance(c.view(), lo.view(), hi.view()) * e.x,
                y: c.view().y + box_exit_clearance(c.view(), lo.view(), hi.view()) * e.y,
                z: c.view().z + box_exit_clearance(c.view(), lo.view(), hi.view()) * e.z,
            })
        }),
{
    let q = clamp_to_box(c, lo, hi);
    let dv = Vec3 { x: q.x - c.x, y: q.y - c.y, z: q.z - c.z };
    let d2 = dot(dv, dv);
    proof {
        crate::math::lemma_square_nonneg(dv.view().x);
        crate::math::lemma_square_nonneg(dv.view().y);
        crate::math::lemma_square_nonneg(dv.view().z);
        if dv.view().is_zero() {
            assert(dv.view().norm2() == 0) by (nonlinear_arith)
                requires
                    dv.view().is_zero(),
            ;
        }
    }
    if d2 > 0 {
        let dist = isqrt(d2);
        proof {
            if dist == 0 {
                assert(d2 < (0 + 1) * (0 + 1));
            }
            lemma_component_le_sqrt(dv.view(), d2 as int);
            lemma_scale_div_bound(r as int, dv.view().x, dist as int);
            lemma_scale_div_bound(r as int, dv.view().y, dist as int);
            lemma_scale_div_bound(r as int, dv.view().z, dist as int);
        }
        if dist - r > prediction {
            return None;
        }
        let w1 = Vec3 {
            x: c.x + div_tz(mul_in_range(r, dv.x), dist),
            y: c.y + div_tz(mul_in_range(r, dv.y), dist),
            z: c.z + div_tz(mul_in_range(r, dv.z), dist),
        };
        Some(Contact { world1: w1, world2: q, normal: dv, depth: r - dist })
    } else {
        let mxp = hi.x - c.x;
        let mxn = c.x - lo.x;
        let myp = hi.y - c.y;
        let myn = c.y - lo.y;
        let mzp = hi.z - c.z;
        let mzn = c.z - lo.z;
        let (ex, ey, ez, m): (i64, i64, i64, i64) = if mxp <= mxn && mxp <= myp && mxp <= myn
            && mxp <= mzp && mxp <= mzn {
            (1, 0, 0, mxp)
        } else if mxn <= myp && mxn <= myn && mxn <= mzp && mxn <= mzn {
            (-1, 0, 0, mxn)
        } else if myp <= myn && myp <= mzp && myp <= mzn {
            (0, 1, 0, myp)
        } else if myn <= mzp && myn <= mzn {
            (0, -1, 0, myn)
        } else if mzp <= mzn {
            (0, 0, 1, mzp)
        } else {
            (0, 0, -1, mzn)
        };
        let w1 = Vec3 {
            x: c.x + mul_unit(r, ex),
            y: c.y + mul_unit(r, ey),
            z: c.z + mul_unit(r, ez),
        };
        let w2 = Vec3 {
            x: c.x + mul_unit(m, ex),
            y: c.y + mul_unit(m, ey),
            z: c.z + mul_unit(m, ez),
        };
        Some(Contact { world1: w1, world2: w2, normal: Vec3 { x: ex, y: ey, z: ez }, depth: r + m })
    }
}

/// Product with a unit factor, computed without multiplication.
fn mul_unit(a: i64, u: i64) -> (r: i64)
    requires
        u == 1 || u == -1 || u == 0,
        -4 * (COORD_MAX as int) <= a <= 4 * (COORD_MAX as int),
    ensures
        r as int == a as int * u as int,
        -4 * (COORD_MAX as int) <= r <= 4 * (COORD_MAX as int),
{
    proof {
        assert(a as int * 1 == a as int && a as int * (-1) == -(a as int) && a as int * 0 == 0)
            by (nonlinear_arith);
    }
    if u == 1 {
        a
    } else if u == -1 {
        -a
    } else {
        0
    }
}

/// Depth of a ball-box contact.
pub open spec fn ball_box_depth(c: V3, r: int, lo: V3, hi: V3) -> int {
    let d2 = clamp_point(c, lo, hi).sub(c).norm2();
    if d2 > 0 {
        r - sqrt_floor(d2)
    } else {
        r + box_exit_clearance(c, lo, hi)
    }
}

/// Normal direction of a ball-box contact, from the ball toward the box.
pub open spec fn ball_box_normal(c: V3, lo: V3, hi: V3) -> V3 {
    let q = clamp_point(c, lo, hi);
    if q.sub(c).norm2() > 0 {
        q.sub(c)
    } else {
        box_exit_dir(c, lo, hi)
    }
}

pub open spec fn abs_i(a: int) -> int {
    if a >= 0 {
        a
    } else {
        -a
    }
}

/// The axis whose component of `d` is largest in magnitude (ties prefer
/// the earlier axis).
pub open spec fn face_axis(d: V3) -> int {
    if abs_i(d.x) >= abs_i(d.y) && abs_i(d.x) >= abs_i(d.z) {
        0
    } else if abs_i(d.y) >= abs_i(d.z) {
        1
    } else {
        2
    }
}

/// Whether the supporting face lies on the upper side of that axis.
pub open spec fn face_sign_positive(d: V3) -> bool {
    if face_axis(d) == 0 {
        d.x >= 0
    } else if face_axis(d) == 1 {
        d.y >= 0
    } else {
        d.z >= 0
    }
}

/// Corner identifier of a cuboid vertex: one bit per axis at its upper
/// bound.
pub open spec fn corner_bits(xmax: bool, ymax: bool, zmax: bool) -> int {
    (if xmax {
        1int
    } else {
        0int
    }) + (if ymax {
        2int
    } else {
        0int
    }) + (if zmax {
        4int
    } else {
        0int
    })
}

/// Whether vertex `j` of a face takes the upper bound on the face's first
/// free axis (vertices run around the face in a fixed order).
pub open spec fn face_u_max(j: int) -> bool {
    j == 1 || j == 2
}

/// Whether vertex `j` takes the upper bound on the second free axis.
pub open spec fn face_v_max(j: int) -> bool {
    j == 2 || j == 3
}

/// The `j`-th vertex of the cuboid face on axis `k` (local frame).
pub open spec fn face_vertex(mins: V3, maxs: V3, k: int, pos: bool, j: int) -> V3 {
    if k == 0 {
        V3 {
            x: if pos {
                maxs.x
            } else {
                mins.x
            },
            y: if face_u_max(j) {
                maxs.y
            } else {
                mins.y
            },
            z: if face_v_max(j) {
                maxs.z
            } else {
                mins.z
            },
        }
    } else if k == 1 {
        V3 {
            x: if face_u_max(j) {
                maxs.x
            } else {
                mins.x
            },
            y: if pos {
                maxs.y
            } else {
                mins.y
            },
            z: if face_v_max(j) {
                maxs.z
            } else {
                mins.z
            },
        }
    } else {
        V3 {
            x: if face_u_max(j) {
                maxs.x
            } else {
                mins.x
            },
            y: if face_v_max(j) {
                maxs.y
            } else {
                mins.y
            },
            z: if pos {
                maxs.z
            } else {
                mins.z
            },
        }
    }
}

/// The corner identifier of the `j`-th vertex of the face on axis `k`.
pub open spec fn face_corner(k: int, pos: bool, j: int) -> int {
    if k == 0 {
        corner_bits(pos, face_u_max(j), face_v_max(j))
    } else if k == 1 {
        corner_bits(face_u_max(j), pos, face_v_max(j))
    } else {
        corner_bits(face_u_max(j), face_v_max(j), pos)
    }
}

/// The support face of a posed cuboid toward `dir`: its four world-frame
/// vertices with their corner identifiers, in a fixed traversal order.
pub fn support_face(mins: &Vec3, maxs: &Vec3, pose: &Vec3, dir: &Vec3) -> (r: Vec<(Vec3, u64)>)
    requires
        mins.wf(),
        maxs.wf(),
        pose.wf(),
        dir.wf(),
    ensures
        r@.len() == 4,
        forall|j: int|
            0 <= j < 4 ==> (#[trigger] r@[j]).0.view() == face_vertex(
                mins.view(),
                maxs.view(),
                face_axis(dir.view()),
                face_sign_positive(dir.view()),
                j,
            ).add(pose.view()) && r@[j].1 as int == face_corner(
                face_axis(dir.view()),
                face_sign_positive(dir.view()),
                j,
            ),
{
    let ax = if dir.x >= 0 {
        dir.x
    } else {
        -dir.x
    };
    let ay = if dir.y >= 0 {
        dir.y
    } else {
        -dir.y
    };
    let az = if dir.z >= 0 {
        dir.z
    } else {
        -dir.z
    };
    let mut r: Vec<(Vec3, u64)> = Vec::new();
    if ax >= ay && ax >= az {
        let fx = if dir.x >= 0 {
            maxs.x
        } else {
            mins.x
        };
        let bx: u64 = if dir.x >= 0 {
            1
        } else {
            0
        };
        r.push((Vec3 { x: fx + pose.x, y: mins.y + pose.y, z: mins.z + pose.z }, bx));
        r.push((Vec3 { x: fx + pose.x, y: maxs.y + pose.y, z: mins.z + pose.z }, bx + 2));
        r.push((Vec3 { x: fx + pose.x, y: maxs.y + pose.y, z: maxs.z + pose.z }, bx + 6));
        r.push((Vec3 { x: fx + pose.x, y: mins.y + pose.y, z: maxs.z + pose.z }, bx + 4));
    } else if ay >= az {
        let fy = if dir.y >= 0 {
            maxs.y
        } else {
            mins.y
        };
        let by: u64 = if dir.y >= 0 {
            2
        } else {
            0
        };
        r.push((Vec3 { x: mins.x + pose.x, y: fy + pose.y, z: mins.z + pose.z }, by));
        r.push((Vec3 { x: maxs.x + pose.x, y: fy + pose.y, z: mins.z + pose.z }, by + 1));
        r.push((Vec3 { x: maxs.x + pose.x, y: fy + pose.y, z: maxs.z + pose.z }, by + 5));
        r.push((Vec3 { x: mins.x + pose.x, y: fy + pose.y, z: maxs.z + pose.z }, by + 4));
    } else {
        let fz = if dir.z >= 0 {
            maxs.z
        } else {
            mins.z
        };
        let bz: u64 = if dir.z >= 0 {
            4
        } else {
            0
        };
        r.push((Vec3 { x: mins.x + pose.x, y: mins.y + pose.y, z: fz + pose.z }, bz));
        r.push((Vec3 { x: maxs.x + pose.x, y: mins.y + pose.y, z: fz + pose.z }, bz + 1));
        r.push((Vec3 { x: maxs.x + pose.x, y: maxs.y + pose.y, z: fz + pose.z }, bz + 3));
        r.push((Vec3 { x: mins.x + pose.x, y: maxs.y + pose.y, z: fz + pose.z }, bz + 2));
    }
    r
}

/// The world point obtained by walking back from `v` along the plane
/// normal by the signed distance `sd` (in normalised units).
pub open spec fn plane_project_spec(n: V3, v: V3, sd: int) -> V3 {
    let nf = sqrt_floor(n.norm2());
    V3 {
        x: v.x - div_toward_zero(n.x * sd, nf),
        y: v.y - div_toward_zero(n.y * sd, nf),
        z: v.z - div_toward_zero(n.z * sd, nf),
    }
}

/// Projection of a world point onto the plane, exact in the fixed-point
/// model.
pub fn plane_project(normal: &Vec3, v: &Vec3, sd: i64) -> (r: Vec3)
    requires
        normal.wf(),
        !normal.view().is_zero(),
        -3 * (COORD_MAX as int) <= v.view().x <= 3 * (COORD_MAX as int),
        -3 * (COORD_MAX as int) <= v.view().y <= 3 * (COORD_MAX as int),
        -3 * (COORD_MAX as int) <= v.view().z <= 3 * (COORD_MAX as int),
        -5_000_000_000 <= sd <= 5_000_000_000,
    ensures
        r.view() == plane_project_spec(normal.view(), v.view(), sd as int),
{
    let n2 = dot(*normal, *normal);
    proof {
        lemma_norm2_pos(normal.view());
    }
    let nf = isqrt(n2);
    proof {
        lemma_component_le_sqrt(normal.view(), n2 as int);
        assert(nf >= 1) by {
            assert(nf * nf <= n2);
            if nf == 0 {
                assert(0 * 0 == 0) by (nonlinear_arith);
            }
        }
        lemma_scale_div_bound_wide(sd as int, normal.view().x, nf as int);
        lemma_scale_div_bound_wide(sd as int, normal.view().y, nf as int);
        lemma_scale_div_bound_wide(sd as int, normal.view().z, nf as int);
    }
    Vec3 {
        x: v.x - div_tz(mul_nsd(normal.x, sd), nf),
        y: v.y - div_tz(mul_nsd(normal.y, sd), nf),
        z: v.z - div_tz(mul_nsd(normal.z, sd), nf),
    }
}

/// A normal component no larger than the normal's length, scaled by a
/// bounded signed distance, divides back to a bounded quotient.
pub proof fn lemma_scale_div_bound_wide(t: int, c: int, nf: int)
    requires
        nf >= 1,
        -nf <= c <= nf,
        -5_000_000_000 <= t <= 5_000_000_000,
    ensures
        -5_000_000_000 <= div_toward_zero(c * t, nf) <= 5_000_000_000,
{
    let m = if t >= 0 {
        t
    } else {
        -t
    };
    assert(-(m * nf) <= c * t <= m * nf) by (nonlinear_arith)
        requires
            0 <= m,
            -m <= t <= m,
            -nf <= c <= nf,
            nf >= 1,
    ;
    crate::math::lemma_div_tz_bound(c * t, nf, m);
}

/// Product of a normal component and a signed distance.
fn mul_nsd(a: i64, b: i64) -> (r: i64)
    requires
        -(COORD_MAX as int) <= a <= COORD_MAX as int,
        -5_000_000_000 <= b <= 5_000_000_000,
    ensures
        r as int == a as int * b as int,
        -2_500_000_000_000_000_000 <= r <= 2_500_000_000_000_000_000,
{
    proof {
        assert(-2_500_000_000_000_000_000 <= (a as int) * (b as int)
            <= 2_500_000_000_000_000_000) by (nonlinear_arith)
            requires
                -(COORD_MAX as int) <= a <= COORD_MAX as int,
                -5_000_000_000 <= b <= 5_000_000_000,
                COORD_MAX == 500_000_000i64,
        ;
    }
    a * b
}

/// Clamp `p` to the box `[lo, hi]` componentwise: the closest point of the
/// box to `p`.
pub open spec fn clamp_point(p: V3, lo: V3, hi: V3) -> V3 {
    V3 {
        x: if p.x < lo.x {
            lo.x
        } else if p.x > hi.x {
            hi.x
        } else {
            p.x
        },
        y: if p.y < lo.y {
            lo.y
        } else if p.y > hi.y {
            hi.y
        } else {
            p.y
        },
        z: if p.z < lo.z {
            lo.z
        } else if p.z > hi.z {
            hi.z
        } else {
            p.z
        },
    }
}

pub fn clamp_to_box(p: &Vec3, lo: &Vec3, hi: &Vec3) -> (r: Vec3)
    ensures
        r.view() == clamp_point(p.view(), lo.view(), hi.view()),
{
    Vec3 {
        x: if p.x < lo.x {
            lo.x
        } else if p.x > hi.x {
            hi.x
        } else {
            p.x
        },
        y: if p.y < lo.y {
            lo.y
        } else if p.y > hi.y {
            hi.y
        } else {
            p.y
        },
        z: if p.z < lo.z {
            lo.z
        } else if p.z > hi.z {
            hi.z
        } else {
            p.z
        },
    }
}

/// Separation gap of two intervals (zero when they overlap).
pub open spec fn interval_gap(alo: int, ahi: int, blo: int, bhi: int) -> int {
    if alo > bhi {
        alo - bhi
    } else if blo > ahi {
        blo - ahi
    } else {
        0
    }
}

/// Squared distance between two posed simple shapes (balls and cuboids).
/// For balls the residual after subtracting the radii is taken on the
/// rounded centre distance, so the result is the exact fixed-point model of
/// the separation.
pub open spec fn simple_dist_spec(s1: SimpleShape, p1: V3, s2: SimpleShape, p2: V3) -> int {
    match (s1, s2) {
        (SimpleShape::Ball { radius: r1 }, SimpleShape::Ball { radius: r2 }) => {
            let d = sqrt_floor(p2.sub(p1).norm2()) - r1 - r2;
            if d > 0 {
                d
            } else {
                0
            }
        },
        (SimpleShape::Ball { radius: r1 }, SimpleShape::Cuboid { mins, maxs }) => {
            ball_box_outside_dist_spec(p1, r1 as int, mins.view().add(p2), maxs.view().add(p2))
        },
        (SimpleShape::Cuboid { mins, maxs }, SimpleShape::Ball { radius: r2 }) => {
            ball_box_outside_dist_spec(p2, r2 as int, mins.view().add(p1), maxs.view().add(p1))
        },
        (
            SimpleShape::Cuboid { mins: amin, maxs: amax },
            SimpleShape::Cuboid { mins: bmin, maxs: bmax },
        ) => {
            let gx = interval_gap(
                amin.view().x + p1.x,
                amax.view().x + p1.x,
                bmin.view().x + p2.x,
                bmax.view().x + p2.x,
            );
            let gy = interval_gap(
                amin.view().y + p1.y,
                amax.view().y + p1.y,
                bmin.view().y + p2.y,
                bmax.view().y + p2.y,
            );
            let gz = interval_gap(
                amin.view().z + p1.z,
                amax.view().z + p1.z,
                bmin.view().z + p2.z,
                bmax.view().z + p2.z,
            );
            sqrt_floor(gx * gx + gy * gy + gz * gz)
        },
        _ => 0,
    }
}

/// Distance between two posed simple shapes, neither of which is a plane.
pub fn simple_dist(s1: &SimpleShape, p1: &Vec3, s2: &SimpleShape, p2: &Vec3) -> (r: i64)
    requires
        s1.wf(),
        s2.wf(),
        p1.wf(),
        p2.wf(),
        !s1.is_plane(),
        !s2.is_plane(),
    ensures
        r as int == simple_dist_spec(*s1, p1.view(), *s2, p2.view()),
        r >= 0,
{
    match (s1, s2) {
        (SimpleShape::Ball { radius: r1 }, SimpleShape::Ball { radius: r2 }) => {
            let d2 = dist2(*p1, *p2);
            let d = isqrt(d2) - *r1 - *r2;
            if d > 0 {
                d
            } else {
                0
            }
        },
        (SimpleShape::Ball { radius: r1 }, SimpleShape::Cuboid { mins, maxs }) => {
            let d = ball_box_outside_dist(p1, *r1, &mins.add(*p2), &maxs.add(*p2));
            d
        },
        (SimpleShape::Cuboid { mins, maxs }, SimpleShape::Ball { radius: r2 }) => {
            let d = ball_box_outside_dist(p2, *r2, &mins.add(*p1), &maxs.add(*p1));
            d
        },
        (
            SimpleShape::Cuboid { mins: amin, maxs: amax },
            SimpleShape::Cuboid { mins: bmin, maxs: bmax },
        ) => {
            let gx = gap(amin.x + p1.x, amax.x + p1.x, bmin.x + p2.x, bmax.x + p2.x);
            let gy = gap(amin.y + p1.y, amax.y + p1.y, bmin.y + p2.y, bmax.y + p2.y);
            let gz = gap(amin.z + p1.z, amax.z + p1.z, bmin.z + p2.z, bmax.z + p2.z);
            proof {
                crate::math::lemma_mul_bound(gx as int, gx as int, 2_000_000_000);
                crate::math::lemma_mul_bound(gy as int, gy as int, 2_000_000_000);
                crate::math::lemma_mul_bound(gz as int, gz as int, 2_000_000_000);
                crate::math::lemma_square_nonneg(gx as int);
                crate::math::lemma_square_nonneg(gy as int);
                crate::math::lemma_square_nonneg(gz as int);
                assert(2_000_000_000int * 2_000_000_000int == 4_000_000_000_000_000_000int)
                    by (nonlinear_arith);
            }
            let d2: i128 = (gx as i128) * (gx as i128) + (gy as i128) * (gy as i128) + (
            gz as i128) * (gz as i128);
            crate::math::isqrt_wide(d2)
        },
        _ => 0,
    }
}

fn gap(alo: i64, ahi: i64, blo: i64, bhi: i64) -> (r: i64)
    requires
        -2 * (COORD_MAX as int) <= alo <= 2 * (COORD_MAX as int),
        -2 * (COORD_MAX as int) <= ahi <= 2 * (COORD_MAX as int),
        -2 * (COORD_MAX as int) <= blo <= 2 * (COORD_MAX as int),
        -2 * (COORD_MAX as int) <= bhi <= 2 * (COORD_MAX as int),
    ensures
        r as int == interval_gap(alo as int, ahi as int, blo as int, bhi as int),
        0 <= r <= 4 * (COORD_MAX as int),
{
    if alo > bhi {
        alo - bhi
    } else if blo > ahi {
        blo - ahi
    } else {
        0
    }
}

/// Distance from a posed ball to a world-frame box, clamped at zero: the
/// rounded distance from the centre to the closest box point, minus the
/// radius.
pub fn ball_box_outside_dist(c: &Vec3, r: i64, lo: &Vec3, hi: &Vec3) -> (d: i64)
    requires
        c.wf(),
        0 < r <= COORD_MAX as int,
        -2 * (COORD_MAX as int) <= lo.view().x <= 2 * (COORD_MAX as int),
        -2 * (COORD_MAX as int) <= lo.view().y <= 2 * (COORD_MAX as int),
        -2 * (COORD_MAX as int) <= lo.view().z <= 2 * (COORD_MAX as int),
        -2 * (COORD_MAX as int) <= hi.view().x <= 2 * (COORD_MAX as int),
        -2 * (COORD_MAX as int) <= hi.view().y <= 2 * (COORD_MAX as int),
        -2 * (COORD_MAX as int) <= hi.view().z <= 2 * (COORD_MAX as int),
    ensures
        d as int == ball_box_outside_dist_spec(c.view(), r as int, lo.view(), hi.view()),
        d >= 0,
{
    let q = clamp_to_box(c, lo, hi);
    let dv = Vec3 { x: q.x - c.x, y: q.y - c.y, z: q.z - c.z };
    let d2 = dot(dv, dv);
    proof {
        crate::math::lemma_square_nonneg(dv.view().x);
        crate::math::lemma_square_nonneg(dv.view().y);
        crate::math::lemma_square_nonneg(dv.view().z);
    }
    let d = isqrt(d2) - r;
    if d > 0 {
        d
    } else {
        0
    }
}

/// The fixed-point separation of a ball from a box.
pub open spec fn ball_box_outside_dist_spec(c: V3, r: int, lo: V3, hi: V3) -> int {
    let d = sqrt_floor(clamp_point(c, lo, hi).sub(c).norm2()) - r;
    if d > 0 {
        d
    } else {
        0
    }
}

} // verus!
