//! Proximity detectors: persistent classifiers that report whether two
//! shapes are intersecting, within a margin, or disjoint.

use vstd::prelude::*;
use crate::kernels::{ball_ball_proximity, ball_ball_proximity_spec, cuboid_support,
    cuboid_support_spec, plane_point_sdist, plane_sdist, simple_dist, simple_dist_spec, Proximity};
use crate::math::{Vec3, V3, COORD_MAX};
use crate::shape::{Shape, SimpleShape};

verus! {

/// Classification of a signed distance against a margin.
pub open spec fn classify_sdist(sd: int, margin: int) -> Proximity {
    if sd <= 0 {
        Proximity::Intersecting
    } else if sd <= margin {
        Proximity::WithinMargin
    } else {
        Proximity::Disjoint
    }
}

/// Signed distance from a plane to the support point of a primitive shape
/// opposite the plane normal (for a ball, the centre distance minus the
/// radius).
pub open spec fn plane_sm_sdist(n: Vec3, ppos: Vec3, s: SimpleShape, spos: Vec3) -> int {
    match s {
        SimpleShape::Ball { radius } => plane_point_sdist(n.view(), ppos.view(), spos.view())
            - radius,
        SimpleShape::Cuboid { mins, maxs } => plane_point_sdist(
            n.view(),
            ppos.view(),
            cuboid_support_spec(mins.view(), maxs.view(), spos.view(), n.view().neg()),
        ),
        SimpleShape::Plane { .. } => 0,
    }
}

/// Exact plane-against-support-map signed distance.
pub fn plane_sm_signed_dist(n: &Vec3, ppos: &Vec3, s: &SimpleShape, spos: &Vec3) -> (sd: i64)
    requires
        n.wf(),
        !n.view().is_zero(),
        ppos.wf(),
        s.wf(),
        spos.wf(),
        s.is_support_map(),
    ensures
        sd as int == plane_sm_sdist(*n, *ppos, *s, *spos),
        -6_000_000_000 <= sd <= 6_000_000_000,
{
    match s {
        SimpleShape::Ball { radius } => {
            let d = plane_sdist(n, ppos, spos);
            d - *radius
        },
        SimpleShape::Cuboid { mins, maxs } => {
            let dir = n.neg();
            let sp = cuboid_support(mins, maxs, spos, &dir);
            plane_sdist(n, ppos, &sp)
        },
        SimpleShape::Plane { .. } => 0,
    }
}

/// Proximity detector between two balls.
#[derive(Clone, Copy, PartialEq, Eq, Structural, Debug)]
pub struct BallBallProximityDetector {
    pub proximity: Proximity,
}

/// Proximity detector between a plane and a shape with a support function.
#[derive(Clone, Copy, PartialEq, Eq, Structural, Debug)]
pub struct PlaneSupportMapProximityDetector {
    pub proximity: Proximity,
}

/// Proximity detector between a shape with a support function and a plane.
#[derive(Clone, Copy, PartialEq, Eq, Structural, Debug)]
pub struct SupportMapPlaneProximityDetector {
    pub subdetector: PlaneSupportMapProximityDetector,
}

/// Trait implemented by algorithms that determine if two objects are in
/// close proximity.  The same detector is always used with the same pair.
pub trait ProximityDetector {
    /// Runs the proximity detection on two posed shapes; `false` means the
    /// shape capabilities do not match this detector.
    fn update(&mut self, ma: &Vec3, a: &Shape, mb: &Vec3, b: &Shape, margin: i64) -> bool;

    /// The proximity found by the last update.
    fn proximity(&self) -> Proximity;
}

impl BallBallProximityDetector {
    /// Creates a new persistent proximity detector between two balls.
    pub fn new() -> (r: BallBallProximityDetector)
        ensures
            r.proximity == Proximity::Disjoint,
    {
        BallBallProximityDetector { proximity: Proximity::Disjoint }
    }

    /// Classifies two balls: intersecting within the radii sum, within
    /// margin inside the margin band, disjoint beyond it.
    pub fn run_update(&mut self, ma: &Vec3, a: &Shape, mb: &Vec3, b: &Shape, margin: i64) -> (accepted:
        bool)
        requires
            ma.wf(),
            a.wf(),
            mb.wf(),
            b.wf(),
            0 <= margin <= COORD_MAX as int,
        ensures
            accepted == (a.is_ball() && b.is_ball()),
            accepted ==> final(self).proximity == ball_ball_proximity_spec(
                ma.view(),
                a.spec_ball_radius(),
                mb.view(),
                b.spec_ball_radius(),
                margin as int,
            ),
            !accepted ==> *final(self) == *old(self),
    {
        if let (Some(ra), Some(rb)) = (a.as_ball(), b.as_ball()) {
            self.proximity = ball_ball_proximity(ma, ra, mb, rb, margin);
            true
        } else {
            false
        }
    }

    pub fn current(&self) -> (r: Proximity)
        ensures
            r == self.proximity,
    {
        self.proximity
    }
}

impl ProximityDetector for BallBallProximityDetector {
    fn update(&mut self, ma: &Vec3, a: &Shape, mb: &Vec3, b: &Shape, margin: i64) -> bool {
        if !(ma.wf_check() && a.wf_check() && mb.wf_check() && b.wf_check() && 0 <= margin && margin
            <= COORD_MAX) {
            return false;
        }
        BallBallProximityDetector::run_update(self, ma, a, mb, b, margin)
    }

    fn proximity(&self) -> Proximity {
        BallBallProximityDetector::current(self)
    }
}

impl PlaneSupportMapProximityDetector {
    /// Creates a new persistent proximity detector between a plane and a
    /// shape with a support mapping function.
    pub fn new() -> (r: PlaneSupportMapProximityDetector)
        ensures
            r.proximity == Proximity::Disjoint,
    {
        PlaneSupportMapProximityDetector { proximity: Proximity::Disjoint }
    }

    /// Classifies a plane (first body) against a support-map shape by the
    /// signed distance of the shape's support point opposite the normal.
    pub fn run_update(&mut self, ma: &Vec3, a: &Shape, mb: &Vec3, b: &Shape, margin: i64) -> (accepted:
        bool)
        requires
            ma.wf(),
            a.wf(),
            mb.wf(),
            b.wf(),
            0 <= margin <= COORD_MAX as int,
        ensures
            accepted == (a.is_plane() && b.is_support_map()),
            accepted ==> (*b matches Shape::Simple(s) && final(self).proximity == classify_sdist(
                plane_sm_sdist(a.spec_plane_normal(), *ma, s, *mb),
                margin as int,
            )),
            !accepted ==> *final(self) == *old(self),
    {
        let npl = match a.as_plane() {
            Some(n) => n,
            None => {
                return false;
            },
        };
        let sm = match b.as_support_map() {
            Some(s) => s,
            None => {
                return false;
            },
        };
        let sd = plane_sm_signed_dist(&npl, ma, sm, mb);
        self.proximity = if sd <= 0 {
            Proximity::Intersecting
        } else if sd <= margin {
            Proximity::WithinMargin
        } else {
            Proximity::Disjoint
        };
        true
    }

    pub fn current(&self) -> (r: Proximity)
        ensures
            r == self.proximity,
    {
        self.proximity
    }
}

impl ProximityDetector for PlaneSupportMapProximityDetector {
    fn update(&mut self, ma: &Vec3, a: &Shape, mb: &Vec3, b: &Shape, margin: i64) -> bool {
        if !(ma.wf_check() && a.wf_check() && mb.wf_check() && b.wf_check() && 0 <= margin && margin
            <= COORD_MAX) {
            return false;
        }
        PlaneSupportMapProximityDetector::run_update(self, ma, a, mb, b, margin)
    }

    fn proximity(&self) -> Proximity {
        PlaneSupportMapProximityDetector::current(self)
    }
}

impl SupportMapPlaneProximityDetector {
    /// Creates a new persistent proximity detector between a shape with a
    /// support mapping function and a plane.
    pub fn new() -> (r: SupportMapPlaneProximityDetector)
        ensures
            r.subdetector.proximity == Proximity::Disjoint,
    {
        SupportMapPlaneProximityDetector { subdetector: PlaneSupportMapProximityDetector::new() }
    }

    /// Runs the plane-support-map detector with the two bodies swapped.
    pub fn run_update(&mut self, ma: &Vec3, a: &Shape, mb: &Vec3, b: &Shape, margin: i64) -> (accepted:
        bool)
        requires
            ma.wf(),
            a.wf(),
            mb.wf(),
            b.wf(),
            0 <= margin <= COORD_MAX as int,
        ensures
            accepted == (b.is_plane() && a.is_support_map()),
            accepted ==> (*a matches Shape::Simple(s) && final(self).subdetector.proximity
                == classify_sdist(plane_sm_sdist(b.spec_plane_normal(), *mb, s, *ma), margin as int)),
            !accepted ==> *final(self) == *old(self),
    {
        self.subdetector.run_update(mb, b, ma, a, margin)
    }

    pub fn current(&self) -> (r: Proximity)
        ensures
            r == self.subdetector.proximity,
    {
        self.subdetector.proximity
    }
}

impl ProximityDetector for SupportMapPlaneProximityDetector {
    fn update(&mut self, ma: &Vec3, a: &Shape, mb: &Vec3, b: &Shape, margin: i64) -> bool {
        if !(ma.wf_check() && a.wf_check() && mb.wf_check() && b.wf_check() && 0 <= margin && margin
            <= COORD_MAX) {
            return false;
        }
        SupportMapPlaneProximityDetector::run_update(self, ma, a, mb, b, margin)
    }

    fn proximity(&self) -> Proximity {
        SupportMapPlaneProximityDetector::current(self)
    }
}

/// Proximity detector between two shapes with support functions (balls
/// and cuboids), classified by their exact fixed-point distance.
#[derive(Clone, Copy, PartialEq, Eq, Structural, Debug)]
pub struct SupportMapSupportMapProximityDetector {
    pub proximity: Proximity,
}

impl SupportMapSupportMapProximityDetector {
    /// Creates a new persistent proximity detector between two shapes
    /// with support mapping functions.
    pub fn new() -> (r: SupportMapSupportMapProximityDetector)
        ensures
            r.proximity == Proximity::Disjoint,
    {
        SupportMapSupportMapProximityDetector { proximity: Proximity::Disjoint }
    }

    /// Classifies two support-map shapes by their distance: intersecting
    /// at distance zero, within margin inside the margin band, disjoint
    /// beyond it.
    pub fn run_update(&mut self, ma: &Vec3, a: &Shape, mb: &Vec3, b: &Shape, margin: i64) -> (accepted:
        bool)
        requires
            ma.wf(),
            a.wf(),
            mb.wf(),
            b.wf(),
            0 <= margin <= COORD_MAX as int,
        ensures
            accepted == (a.is_support_map() && b.is_support_map()),
            accepted ==> (*a matches Shape::Simple(s1) && *b matches Shape::Simple(s2)
                && final(self).proximity == classify_sdist(
                simple_dist_spec(s1, ma.view(), s2, mb.view()),
                margin as int,
            )),
            !accepted ==> *final(self) == *old(self),
    {
        let s1 = match a.as_support_map() {
            Some(s) => s,
            None => {
                return false;
            },
        };
        let s2 = match b.as_support_map() {
            Some(s) => s,
            None => {
                return false;
            },
        };
        let d = simple_dist(s1, ma, s2, mb);
        self.proximity = if d <= 0 {
            Proximity::Intersecting
        } else if d <= margin {
            Proximity::WithinMargin
        } else {
            Proximity::Disjoint
        };
        true
    }

    pub fn current(&self) -> (r: Proximity)
        ensures
            r == self.proximity,
    {
        self.proximity
    }
}

impl ProximityDetector for SupportMapSupportMapProximityDetector {
    fn update(&mut self, ma: &Vec3, a: &Shape, mb: &Vec3, b: &Shape, margin: i64) -> bool {
        if !(ma.wf_check() && a.wf_check() && mb.wf_check() && b.wf_check() && 0 <= margin && margin
            <= COORD_MAX) {
            return false;
        }
        SupportMapSupportMapProximityDetector::run_update(self, ma, a, mb, b, margin)
    }

    fn proximity(&self) -> Proximity {
        SupportMapSupportMapProximityDetector::current(self)
    }
}

/// A proximity algorithm allocated by the dispatcher.
#[derive(Clone, Copy, PartialEq, Eq, Structural, Debug)]
pub enum ProximityAlgorithm {
    BallBall(BallBallProximityDetector),
    PlaneSupportMap(PlaneSupportMapProximityDetector),
    SupportMapPlane(SupportMapPlaneProximityDetector),
    SupportMapSupportMap(SupportMapSupportMapProximityDetector),
}

impl ProximityAlgorithm {
    /// The proximity found by the last update of the inner detector.
    pub fn current(&self) -> (r: Proximity)
        ensures
            r == self.spec_proximity(),
    {
        match self {
            ProximityAlgorithm::BallBall(d) => d.current(),
            ProximityAlgorithm::PlaneSupportMap(d) => d.current(),
            ProximityAlgorithm::SupportMapPlane(d) => d.current(),
            ProximityAlgorithm::SupportMapSupportMap(d) => d.current(),
        }
    }

    pub open spec fn spec_proximity(self) -> Proximity {
        match self {
            ProximityAlgorithm::BallBall(d) => d.proximity,
            ProximityAlgorithm::PlaneSupportMap(d) => d.proximity,
            ProximityAlgorithm::SupportMapPlane(d) => d.subdetector.proximity,
            ProximityAlgorithm::SupportMapSupportMap(d) => d.proximity,
        }
    }
}

/// Trait of dispatchers that allocate a proximity algorithm for a pair of
/// shapes.
pub trait ProximityDispatcher {
    /// Allocate a proximity algorithm corresponding to the given pair of
    /// shapes, or `None` when no algorithm covers them.
    fn get_proximity_algorithm(&self, a: &Shape, b: &Shape) -> Option<ProximityAlgorithm>;
}

} // verus!
