//! Exact fixed-point linear algebra: vectors, axis-aligned bounding boxes,
//! and the integer square root used to report distances.
//!
//! Coordinates are `i64` values bounded by [`COORD_MAX`] so that every
//! squared distance and dot product fits in the machine integers it is
//! computed with; the contracts state all arithmetic over unbounded `int`.

use vstd::prelude::*;

verus! {

/// Largest magnitude a coordinate, radius or margin may have.
pub const COORD_MAX: i64 = 500_000_000;

/// A coordinate within the range the pipeline accepts.
pub open spec fn in_range(v: int) -> bool {
    -(COORD_MAX as int) <= v && v <= COORD_MAX as int
}

/// Mathematical model of a vector: three unbounded integers.
pub ghost struct V3 {
    pub x: int,
    pub y: int,
    pub z: int,
}

impl V3 {
    pub open spec fn sub(self, o: V3) -> V3 {
        V3 { x: self.x - o.x, y: self.y - o.y, z: self.z - o.z }
    }

    pub open spec fn add(self, o: V3) -> V3 {
        V3 { x: self.x + o.x, y: self.y + o.y, z: self.z + o.z }
    }

    pub open spec fn neg(self) -> V3 {
        V3 { x: -self.x, y: -self.y, z: -self.z }
    }

    pub open spec fn dot(self, o: V3) -> int {
        self.x * o.x + self.y * o.y + self.z * o.z
    }

    pub open spec fn norm2(self) -> int {
        self.dot(self)
    }

    pub open spec fn is_zero(self) -> bool {
        self.x == 0 && self.y == 0 && self.z == 0
    }
}

/// A 3D vector in fixed-point coordinates.
#[derive(Clone, Copy, PartialEq, Eq, Structural, Debug, Hash)]
pub struct Vec3 {
    pub x: i64,
    pub y: i64,
    pub z: i64,
}

impl Vec3 {
    pub open spec fn view(self) -> V3 {
        V3 { x: self.x as int, y: self.y as int, z: self.z as int }
    }

    /// All components within the accepted coordinate range.
    pub open spec fn wf(self) -> bool {
        in_range(self.x as int) && in_range(self.y as int) && in_range(self.z as int)
    }

    pub fn new(x: i64, y: i64, z: i64) -> (r: Vec3)
        ensures
            r.view() == (V3 { x: x as int, y: y as int, z: z as int }),
    {
        Vec3 { x, y, z }
    }

    /// Componentwise difference; the result may exceed the coordinate range
    /// by a factor of two but never overflows.
    pub fn sub(self, o: Vec3) -> (r: Vec3)
        requires
            self.wf(),
            o.wf(),
        ensures
            r.view() == self.view().sub(o.view()),
    {
        Vec3 { x: self.x - o.x, y: self.y - o.y, z: self.z - o.z }
    }

    pub fn add(self, o: Vec3) -> (r: Vec3)
        requires
            self.wf(),
            o.wf(),
        ensures
            r.view() == self.view().add(o.view()),
    {
        Vec3 { x: self.x + o.x, y: self.y + o.y, z: self.z + o.z }
    }

    pub fn neg(self) -> (r: Vec3)
        requires
            self.wf() || (in_range(-self.x as int) && in_range(-self.y as int) && in_range(
                -self.z as int,
            )),
        ensures
            r.view() == self.view().neg(),
    {
        Vec3 { x: -self.x, y: -self.y, z: -self.z }
    }

    /// Runtime test of well-formedness.
    pub fn wf_check(&self) -> (r: bool)
        ensures
            r == self.wf(),
    {
        -COORD_MAX <= self.x && self.x <= COORD_MAX && -COORD_MAX <= self.y && self.y <= COORD_MAX
            && -COORD_MAX <= self.z && self.z <= COORD_MAX
    }

    pub fn is_zero(self) -> (r: bool)
        ensures
            r == self.view().is_zero(),
    {
        self.x == 0 && self.y == 0 && self.z == 0
    }
}

/// Dot product of two vectors whose components stay within three times the
/// coordinate range (differences of well-formed vectors qualify).
pub fn dot(a: Vec3, b: Vec3) -> (r: i64)
    requires
        -3 * (COORD_MAX as int) <= a.view().x <= 3 * (COORD_MAX as int),
        -3 * (COORD_MAX as int) <= a.view().y <= 3 * (COORD_MAX as int),
        -3 * (COORD_MAX as int) <= a.view().z <= 3 * (COORD_MAX as int),
        -3 * (COORD_MAX as int) <= b.view().x <= 3 * (COORD_MAX as int),
        -3 * (COORD_MAX as int) <= b.view().y <= 3 * (COORD_MAX as int),
        -3 * (COORD_MAX as int) <= b.view().z <= 3 * (COORD_MAX as int),
    ensures
        r as int == a.view().dot(b.view()),
        -6_750_000_000_000_000_000 <= r <= 6_750_000_000_000_000_000,
{
    proof {
        lemma_mul_bound(a.view().x, b.view().x, 3 * (COORD_MAX as int));
        lemma_mul_bound(a.view().y, b.view().y, 3 * (COORD_MAX as int));
        lemma_mul_bound(a.view().z, b.view().z, 3 * (COORD_MAX as int));
        assert(3 * (COORD_MAX as int) * (3 * (COORD_MAX as int)) == 2_250_000_000_000_000_000int)
            by (nonlinear_arith);
    }
    self_mul(a.x, b.x) + self_mul(a.y, b.y) + self_mul(a.z, b.z)
}

/// Squared euclidean distance between two well-formed points.
pub fn dist2(a: Vec3, b: Vec3) -> (r: i64)
    requires
        a.wf(),
        b.wf(),
    ensures
        r as int == b.view().sub(a.view()).norm2(),
        r >= 0,
{
    let d = b.sub(a);
    let r = dot(d, d);
    proof {
        lemma_square_nonneg(d.view().x);
        lemma_square_nonneg(d.view().y);
        lemma_square_nonneg(d.view().z);
    }
    r
}

fn self_mul(a: i64, b: i64) -> (r: i64)
    requires
        i64::MIN <= a as int * b as int <= i64::MAX,
    ensures
        r as int == a as int * b as int,
{
    a * b
}

pub proof fn lemma_mul_bound(a: int, b: int, m: int)
    requires
        0 <= m,
        -m <= a <= m,
        -m <= b <= m,
    ensures
        -(m * m) <= a * b <= m * m,
{
    assert(-(m * m) <= a * b <= m * m) by (nonlinear_arith)
        requires
            0 <= m,
            -m <= a <= m,
            -m <= b <= m,
    ;
}

pub proof fn lemma_square_nonneg(a: int)
    ensures
        a * a >= 0,
{
    assert(a * a >= 0) by (nonlinear_arith);
}

/// `r` is the floor of the square root of `n`.
pub open spec fn is_sqrt_floor(n: int, r: int) -> bool {
    0 <= r && r * r <= n && n < (r + 1) * (r + 1)
}

/// Floor of the square root of a non-negative integer.
pub open spec fn sqrt_floor(n: int) -> int {
    choose|r: int| is_sqrt_floor(n, r)
}

/// The floor of the square root exists for every non-negative integer.
pub proof fn lemma_sqrt_floor_exists(n: int)
    requires
        0 <= n,
    ensures
        is_sqrt_floor(n, sqrt_floor(n)),
    decreases n,
{
    if n == 0 {
        assert(is_sqrt_floor(0, 0));
    } else {
        lemma_sqrt_floor_exists(n - 1);
        let r = sqrt_floor(n - 1);
        if n < (r + 1) * (r + 1) {
            assert(is_sqrt_floor(n, r));
        } else {
            assert(n == (r + 1) * (r + 1));
            assert((r + 1) * (r + 1) < (r + 2) * (r + 2)) by (nonlinear_arith)
                requires
                    r >= 0,
            ;
            assert(is_sqrt_floor(n, r + 1));
        }
    }
}

/// At most one integer is the floor of the square root of `n`.
pub proof fn lemma_sqrt_floor_unique(n: int, a: int, b: int)
    requires
        is_sqrt_floor(n, a),
        is_sqrt_floor(n, b),
    ensures
        a == b,
{
    assert(a == b) by (nonlinear_arith)
        requires
            0 <= a && a * a <= n && n < (a + 1) * (a + 1),
            0 <= b && b * b <= n && n < (b + 1) * (b + 1),
    ;
}

/// Floor of the square root: the largest `r` with `r * r <= n`.
pub fn isqrt(n: i64) -> (r: i64)
    requires
        0 <= n,
    ensures
        0 <= r,
        r * r <= n,
        n < (r + 1) * (r + 1),
        r == sqrt_floor(n as int),
{
    let mut lo: i64 = 0;
    let mut hi: i64 = 3_100_000_000;
    proof {
        assert((3_100_000_000 + 1) * (3_100_000_000 + 1) > i64::MAX as int) by (nonlinear_arith);
    }
    while lo < hi
        invariant
            0 <= lo <= hi <= 3_100_000_000,
            lo * lo <= n,
            n < (hi + 1) * (hi + 1),
        decreases hi - lo,
    {
        let mid: i64 = lo + (hi - lo + 1) / 2;
        proof {
            lemma_mul_bound(mid as int, mid as int, 3_100_000_000);
            assert(3_100_000_000int * 3_100_000_000int <= i128::MAX as int) by (nonlinear_arith);
        }
        let sq: i128 = (mid as i128) * (mid as i128);
        if sq <= n as i128 {
            lo = mid;
        } else {
            hi = mid - 1;
        }
    }
    proof {
        lemma_sqrt_floor_exists(n as int);
        lemma_sqrt_floor_unique(n as int, lo as int, sqrt_floor(n as int));
    }
    lo
}

/// Floor of the square root of a wide non-negative integer, as used for
/// squared distances that exceed the 64-bit range.
pub fn isqrt_wide(n: i128) -> (r: i64)
    requires
        0 <= n <= 20_000_000_000_000_000_000,
    ensures
        0 <= r,
        r == sqrt_floor(n as int),
{
    let mut lo: i64 = 0;
    let mut hi: i64 = 4_500_000_000;
    proof {
        assert((4_500_000_000 + 1) * (4_500_000_000 + 1) > 20_000_000_000_000_000_000int)
            by (nonlinear_arith);
    }
    while lo < hi
        invariant
            0 <= lo <= hi <= 4_500_000_000,
            n <= 20_000_000_000_000_000_000,
            lo * lo <= n as int,
            (n as int) < (hi + 1) * (hi + 1),
        decreases hi - lo,
    {
        let mid: i64 = lo + (hi - lo + 1) / 2;
        proof {
            lemma_mul_bound(mid as int, mid as int, 4_500_000_000);
            assert(4_500_000_000int * 4_500_000_000int <= i128::MAX as int) by (nonlinear_arith);
        }
        let sq: i128 = (mid as i128) * (mid as i128);
        if sq <= n {
            lo = mid;
        } else {
            hi = mid - 1;
        }
    }
    proof {
        lemma_sqrt_floor_exists(n as int);
        lemma_sqrt_floor_unique(n as int, lo as int, sqrt_floor(n as int));
    }
    lo
}

/// Integer division rounding toward zero, stated over non-negative division.
pub open spec fn div_toward_zero(a: int, b: int) -> int
    recommends
        b > 0,
{
    if a >= 0 {
        a / b
    } else {
        -((-a) / b)
    }
}

/// A bound on the numerator gives the same bound on the quotient.
pub proof fn lemma_div_tz_bound(a: int, b: int, m: int)
    requires
        b > 0,
        0 <= m,
        -(m * b) <= a <= m * b,
    ensures
        -m <= div_toward_zero(a, b) <= m,
{
    assert((m * b) / b == m) by {
        vstd::arithmetic::div_mod::lemma_div_multiples_vanish(m, b);
        assert(b * m == m * b) by (nonlinear_arith);
    }
    if a >= 0 {
        vstd::arithmetic::div_mod::lemma_div_is_ordered(a, m * b, b);
        vstd::arithmetic::div_mod::lemma_div_pos_is_pos(a, b);
    } else {
        vstd::arithmetic::div_mod::lemma_div_is_ordered(-a, m * b, b);
        vstd::arithmetic::div_mod::lemma_div_pos_is_pos(-a, b);
    }
}

/// Quotient toward zero of `a / b` for positive `b`.
pub fn div_tz(a: i64, b: i64) -> (r: i64)
    requires
        b > 0,
        a > i64::MIN,
    ensures
        r as int == div_toward_zero(a as int, b as int),
{
    if a >= 0 {
        let q = a / b;
        proof {
            assert(q as int == a as int / b as int);
        }
        q
    } else {
        let q = (-a) / b;
        proof {
            assert(0 <= (-a as int) / (b as int) <= -a as int) by {
                vstd::arithmetic::div_mod::lemma_div_nonincreasing(-a as int, b as int);
                vstd::arithmetic::div_mod::lemma_div_pos_is_pos(-a as int, b as int);
            }
        }
        -q
    }
}

/// An axis-aligned box given by its two extreme corners.
#[derive(Clone, Copy, PartialEq, Eq, Structural, Debug)]
pub struct Aabb {
    pub mins: Vec3,
    pub maxs: Vec3,
}

impl Aabb {
    /// Corners ordered and within the coordinate range.
    pub open spec fn wf(self) -> bool {
        self.mins.wf() && self.maxs.wf() && self.mins.x <= self.maxs.x && self.mins.y
            <= self.maxs.y && self.mins.z <= self.maxs.z
    }

    /// Two boxes overlap when their intervals intersect on every axis
    /// (touching counts as overlapping).
    pub open spec fn intersects(self, o: Aabb) -> bool {
        self.mins.x <= o.maxs.x && o.mins.x <= self.maxs.x && self.mins.y <= o.maxs.y && o.mins.y
            <= self.maxs.y && self.mins.z <= o.maxs.z && o.mins.z <= self.maxs.z
    }

    pub open spec fn contains_point_spec(self, p: V3) -> bool {
        self.mins.x <= p.x <= self.maxs.x && self.mins.y <= p.y <= self.maxs.y && self.mins.z <= p.z
            <= self.maxs.z
    }

    pub fn new(mins: Vec3, maxs: Vec3) -> (r: Aabb)
        ensures
            r.mins == mins,
            r.maxs == maxs,
    {
        Aabb { mins, maxs }
    }

    /// Overlap test, exact on the fixed-point corners.
    pub fn overlaps(&self, o: &Aabb) -> (r: bool)
        ensures
            r == self.intersects(*o),
    {
        self.mins.x <= o.maxs.x && o.mins.x <= self.maxs.x && self.mins.y <= o.maxs.y && o.mins.y
            <= self.maxs.y && self.mins.z <= o.maxs.z && o.mins.z <= self.maxs.z
    }

    /// The box enlarged by `margin` on every side.
    pub fn loosened(&self, margin: i64) -> (r: Aabb)
        requires
            self.wf(),
            0 <= margin <= COORD_MAX as int,
        ensures
            r.mins.view() == (V3 {
                x: self.mins.x - margin,
                y: self.mins.y - margin,
                z: self.mins.z - margin,
            }),
            r.maxs.view() == (V3 {
                x: self.maxs.x + margin,
                y: self.maxs.y + margin,
                z: self.maxs.z + margin,
            }),
    {
        Aabb {
            mins: Vec3 { x: self.mins.x - margin, y: self.mins.y - margin, z: self.mins.z - margin },
            maxs: Vec3 { x: self.maxs.x + margin, y: self.maxs.y + margin, z: self.maxs.z + margin },
        }
    }

    pub fn contains_point(&self, p: &Vec3) -> (r: bool)
        ensures
            r == self.contains_point_spec(p.view()),
    {
        self.mins.x <= p.x && p.x <= self.maxs.x && self.mins.y <= p.y && p.y <= self.maxs.y
            && self.mins.z <= p.z && p.z <= self.maxs.z
    }
}

} // verus!
