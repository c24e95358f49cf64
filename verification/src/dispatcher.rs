//! The contact and proximity dispatchers: a stateless selection matrix
//! from a pair of shapes to a concrete algorithm, symmetric up to a flip
//! flag on the returned generator.

use vstd::prelude::*;
use crate::composite::CompositeShapeManifoldGenerator;
use crate::generators::{primitive_dispatch, get_primitive_contact_algorithm, PrimitiveAlgorithm};
use crate::heightfield::HeightFieldShapeManifoldGenerator;
use crate::kernels::{ball_ball_depth, ball_ball_emitted, point_toward};
use crate::math::V3;
use crate::proximity::{BallBallProximityDetector, PlaneSupportMapProximityDetector,
    ProximityAlgorithm, ProximityDispatcher, SupportMapPlaneProximityDetector,
    SupportMapSupportMapProximityDetector};
use crate::shape::Shape;

verus! {

/// A contact-manifold algorithm selected by the dispatcher: a primitive
/// pair algorithm, or one of the recursive composite generators.
#[derive(Debug)]
pub enum ContactAlgorithm {
    Primitive(PrimitiveAlgorithm),
    HeightField(HeightFieldShapeManifoldGenerator),
    Composite(CompositeShapeManifoldGenerator),
}

/// The kind of algorithm the dispatcher selects for a pair.
#[derive(Clone, Copy, PartialEq, Eq, Structural, Debug)]
pub enum DispatchKind {
    Primitive,
    HeightField { flip: bool },
    Composite { flip: bool },
}

/// The dispatcher's contact selection.  Height-fields and compounds
/// (which no primitive row matches) take their recursive generators,
/// flipped when the composite body is the second one; all other rows are
/// the primitive matrix.
pub open spec fn contact_dispatch_kind(a: Shape, b: Shape) -> Option<DispatchKind> {
    if a.is_height_field() {
        Some(DispatchKind::HeightField { flip: false })
    } else if b.is_height_field() {
        Some(DispatchKind::HeightField { flip: true })
    } else if a.is_composite_shape() {
        Some(DispatchKind::Composite { flip: false })
    } else if b.is_composite_shape() {
        Some(DispatchKind::Composite { flip: true })
    } else if primitive_dispatch(a, b).is_some() {
        Some(DispatchKind::Primitive)
    } else {
        None
    }
}

/// The stateless contact dispatcher.
#[derive(Clone, Copy, PartialEq, Eq, Structural, Debug)]
pub struct DefaultContactDispatcher {
}

impl DefaultContactDispatcher {
    pub fn new() -> (r: DefaultContactDispatcher)
        ensures
            r == (DefaultContactDispatcher {  }),
    {
        DefaultContactDispatcher {  }
    }

    /// Selects a contact-manifold algorithm for an ordered pair of shapes,
    /// or `None` when no algorithm covers the pair.
    pub fn get_contact_algorithm(&self, a: &Shape, b: &Shape) -> (r: Option<ContactAlgorithm>)
        ensures
            r.is_some() == contact_dispatch_kind(*a, *b).is_some(),
            forall|flip: bool|
                contact_dispatch_kind(*a, *b) == Some(DispatchKind::HeightField { flip })
                    ==> (r.unwrap() matches ContactAlgorithm::HeightField(g) && g.flip == flip
                    && g.timestamp == 0 && g.sub_detectors@.len() == 0),
            forall|flip: bool|
                contact_dispatch_kind(*a, *b) == Some(DispatchKind::Composite { flip })
                    ==> (r.unwrap() matches ContactAlgorithm::Composite(g) && g.flip == flip
                    && g.timestamp == 0 && g.sub_detectors@.len() == 0),
            contact_dispatch_kind(*a, *b) == Some(DispatchKind::Primitive) ==> (r.unwrap() matches ContactAlgorithm::Primitive(p)
                && Some(p) == primitive_dispatch(*a, *b)),
    {
        if a.is_height_field_shape() {
            Some(ContactAlgorithm::HeightField(HeightFieldShapeManifoldGenerator::new(false)))
        } else if b.is_height_field_shape() {
            Some(ContactAlgorithm::HeightField(HeightFieldShapeManifoldGenerator::new(true)))
        } else if a.is_composite() {
            Some(ContactAlgorithm::Composite(CompositeShapeManifoldGenerator::new(false)))
        } else if b.is_composite() {
            Some(ContactAlgorithm::Composite(CompositeShapeManifoldGenerator::new(true)))
        } else {
            match get_primitive_contact_algorithm(a, b) {
                Some(p) => Some(ContactAlgorithm::Primitive(p)),
                None => None,
            }
        }
    }
}

/// The stateless proximity dispatcher.
#[derive(Clone, Copy, PartialEq, Eq, Structural, Debug)]
pub struct DefaultProximityDispatcher {
}

/// The dispatcher's proximity selection: ball against ball, then plane
/// against support map in either order, then support map against support
/// map.
pub open spec fn proximity_dispatch(a: Shape, b: Shape) -> Option<ProximityAlgorithm> {
    if a.is_ball() && b.is_ball() {
        Some(
            ProximityAlgorithm::BallBall(
                BallBallProximityDetector {
                    proximity: crate::kernels::Proximity::Disjoint,
                },
            ),
        )
    } else if a.is_plane() && b.is_support_map() {
        Some(
            ProximityAlgorithm::PlaneSupportMap(
                PlaneSupportMapProximityDetector {
                    proximity: crate::kernels::Proximity::Disjoint,
                },
            ),
        )
    } else if b.is_plane() && a.is_support_map() {
        Some(
            ProximityAlgorithm::SupportMapPlane(
                SupportMapPlaneProximityDetector {
                    subdetector: PlaneSupportMapProximityDetector {
                        proximity: crate::kernels::Proximity::Disjoint,
                    },
                },
            ),
        )
    } else if a.is_support_map() && b.is_support_map() {
        Some(
            ProximityAlgorithm::SupportMapSupportMap(
                SupportMapSupportMapProximityDetector {
                    proximity: crate::kernels::Proximity::Disjoint,
                },
            ),
        )
    } else {
        None
    }
}

impl DefaultProximityDispatcher {
    pub fn new() -> (r: DefaultProximityDispatcher)
        ensures
            r == (DefaultProximityDispatcher {  }),
    {
        DefaultProximityDispatcher {  }
    }

    /// Selects a proximity detector for an ordered pair of shapes.
    pub fn select_proximity_algorithm(&self, a: &Shape, b: &Shape) -> (r: Option<ProximityAlgorithm>)
        ensures
            r == proximity_dispatch(*a, *b),
    {
        if a.is_ball_shape() && b.is_ball_shape() {
            Some(ProximityAlgorithm::BallBall(BallBallProximityDetector::new()))
        } else if a.is_plane_shape() && b.is_support_map_shape() {
            Some(ProximityAlgorithm::PlaneSupportMap(PlaneSupportMapProximityDetector::new()))
        } else if b.is_plane_shape() && a.is_support_map_shape() {
            Some(ProximityAlgorithm::SupportMapPlane(SupportMapPlaneProximityDetector::new()))
        } else if a.is_support_map_shape() && b.is_support_map_shape() {
            Some(
                ProximityAlgorithm::SupportMapSupportMap(
                    SupportMapSupportMapProximityDetector::new(),
                ),
            )
        } else {
            None
        }
    }
}

impl ProximityDispatcher for DefaultProximityDispatcher {
    fn get_proximity_algorithm(&self, a: &Shape, b: &Shape) -> Option<ProximityAlgorithm> {
        DefaultProximityDispatcher::select_proximity_algorithm(self, a, b)
    }
}

/// Dispatcher symmetry: running the selection on the swapped pair yields
/// the same kind of algorithm with the flip flag toggled.
pub proof fn lemma_contact_dispatch_symmetric(a: Shape, b: Shape)
    ensures
        contact_dispatch_kind(a, b).is_some() == contact_dispatch_kind(b, a).is_some(),
        !a.is_height_field() && !b.is_height_field() && !a.is_composite_shape()
            && !b.is_composite_shape() && contact_dispatch_kind(a, b).is_some() ==> match (
            primitive_dispatch(a, b),
            primitive_dispatch(b, a),
        ) {
            (Some(pa), Some(pb)) => primitive_flip_related(pa, pb),
            _ => false,
        },
        a.is_height_field() && !b.is_height_field() ==> contact_dispatch_kind(a, b) == Some(
            DispatchKind::HeightField { flip: false },
        ) && contact_dispatch_kind(b, a) == Some(DispatchKind::HeightField { flip: true }),
        a.is_composite_shape() && !b.is_height_field() && !b.is_composite_shape()
            ==> contact_dispatch_kind(a, b) == Some(DispatchKind::Composite { flip: false })
            && contact_dispatch_kind(b, a) == Some(DispatchKind::Composite { flip: true }),
{
}

/// The two primitive selections are the same algorithm seen from either
/// side: same kind, flip flag toggled where one exists.
pub open spec fn primitive_flip_related(pa: PrimitiveAlgorithm, pb: PrimitiveAlgorithm) -> bool {
    match (pa, pb) {
        (PrimitiveAlgorithm::BallBall(_), PrimitiveAlgorithm::BallBall(_)) => true,
        (PrimitiveAlgorithm::PlaneConvex(g1), PrimitiveAlgorithm::PlaneConvex(g2)) => g1.flip
            != g2.flip,
        (PrimitiveAlgorithm::ConvexConvex(_), PrimitiveAlgorithm::ConvexConvex(_)) => true,
        _ => false,
    }
}

/// Flipping a plane-convex generator twice gives the generator back.
pub proof fn lemma_plane_convex_flip_involutive(g: crate::generators::PlaneConvexPolyhedronManifoldGenerator)
    ensures
        g.spec_flipped().spec_flipped() == g,
{
}

/// Flipping a height-field generator twice gives the generator back.
pub proof fn lemma_height_field_flip_involutive(g: HeightFieldShapeManifoldGenerator)
    ensures
        g.spec_flipped().spec_flipped() == g,
{
}

/// The ball-ball kernel is symmetric: swapping the two balls preserves the
/// emission test and the depth, and reverses the direction the contact
/// points are measured along.
pub proof fn lemma_ball_ball_symmetry(ca: V3, ra: int, cb: V3, rb: int, pred: int)
    ensures
        ball_ball_emitted(ca, ra, cb, rb, pred) == ball_ball_emitted(cb, rb, ca, ra, pred),
        ball_ball_depth(ca, ra, cb, rb) == ball_ball_depth(cb, rb, ca, ra),
        ca.sub(cb) == cb.sub(ca).neg(),
{
    assert(cb.sub(ca).norm2() == ca.sub(cb).norm2()) by (nonlinear_arith);
}

/// Measuring from the reversed direction with the reversed magnitude lands
/// on the same point: the two sides of a flipped contact coincide.
pub proof fn lemma_point_toward_neg(c: V3, d: V3, t: int, dist: int)
    ensures
        point_toward(c, d.neg(), t, dist) == point_toward(c, d, -t, dist),
{
    assert(t * (-d.x) == (-t) * d.x && t * (-d.y) == (-t) * d.y && t * (-d.z) == (-t) * d.z)
        by (nonlinear_arith);
}

} // verus!
