//! End-to-end exercises of the collision pipeline on concrete fixed-point
//! scenarios.

use ncollide_pipeline::broad_phase::{BroadPhaseInterferenceHandler, BruteForceBroadPhase,
    ProxyHandle};
use ncollide_pipeline::composite::CompositeShapeManifoldGenerator;
use ncollide_pipeline::contact::{Contact, ContactKinematic, ContactPrediction, FeatureId,
    LocalApprox, NeighborhoodGeometry};
use ncollide_pipeline::dispatcher::{ContactAlgorithm, DefaultContactDispatcher,
    DefaultProximityDispatcher};
use ncollide_pipeline::generators::{BallBallManifoldGenerator, ConvexConvexManifoldGenerator,
    PlaneConvexPolyhedronManifoldGenerator, PrimitiveAlgorithm};
use ncollide_pipeline::graph::{is_interaction_effective, Interaction, InteractionGraph};
use ncollide_pipeline::heightfield::HeightFieldShapeManifoldGenerator;
use ncollide_pipeline::ids::IdAllocator;
use ncollide_pipeline::kernels::Proximity;
use ncollide_pipeline::manifold::ContactManifold;
use ncollide_pipeline::math::{isqrt, Aabb, Vec3};
use ncollide_pipeline::proximity::{BallBallProximityDetector, PlaneSupportMapProximityDetector,
    ProximityAlgorithm, SupportMapPlaneProximityDetector, SupportMapSupportMapProximityDetector};
use ncollide_pipeline::query::{composite_shape_against_shape, shape_against_shape};
use ncollide_pipeline::shape::{Compound, CompoundPart, HeightField, Shape, SimpleShape};

fn ball(radius: i64) -> Shape {
    Shape::Simple(SimpleShape::Ball { radius })
}

fn plane(normal: Vec3) -> Shape {
    Shape::Simple(SimpleShape::Plane { normal })
}

fn cuboid(mins: Vec3, maxs: Vec3) -> Shape {
    Shape::Simple(SimpleShape::Cuboid { mins, maxs })
}

fn v(x: i64, y: i64, z: i64) -> Vec3 {
    Vec3 { x, y, z }
}

#[test]
fn isqrt_exact_values() {
    assert_eq!(isqrt(0), 0);
    assert_eq!(isqrt(1), 1);
    assert_eq!(isqrt(8), 2);
    assert_eq!(isqrt(9), 3);
    assert_eq!(isqrt(999_999_999_999_999_999), 999999999);
}

#[test]
fn ball_ball_touching_contact() {
    // two balls of radius 2 with centres 3 apart: one contact of depth 1
    let mut gen = BallBallManifoldGenerator::new();
    let mut alloc = IdAllocator::new();
    let mut manifold = ContactManifold::new();
    let pred = ContactPrediction::new(0);
    let accepted = gen.generate_contacts(
        0,
        0,
        &v(0, 0, 0),
        &ball(2),
        &v(3, 0, 0),
        &ball(2),
        &pred,
        &mut alloc,
        &mut manifold,
    );
    assert!(accepted);
    assert_eq!(manifold.len(), 1);
    let e = &manifold.contacts()[0];
    assert_eq!(e.contact.depth, 1);
    assert_eq!(e.contact.normal, v(3, 0, 0));
    assert_eq!(e.contact.world1, v(2, 0, 0));
    assert_eq!(e.contact.world2, v(1, 0, 0));
    assert_eq!(e.fid1, FeatureId::Face(0));
    assert_eq!(e.fid2, FeatureId::Face(0));
}

#[test]
fn ball_ball_separated_no_contact() {
    let mut gen = BallBallManifoldGenerator::new();
    let mut alloc = IdAllocator::new();
    let mut manifold = ContactManifold::new();
    let pred = ContactPrediction::new(0);
    let accepted = gen.generate_contacts(
        0,
        0,
        &v(0, 0, 0),
        &ball(2),
        &v(6, 0, 0),
        &ball(2),
        &pred,
        &mut alloc,
        &mut manifold,
    );
    assert!(accepted);
    assert_eq!(manifold.len(), 0);
}

#[test]
fn ball_ball_speculative_contact() {
    // separated by 2 beyond the radii, prediction 4: speculative depth -2
    let mut gen = BallBallManifoldGenerator::new();
    let mut alloc = IdAllocator::new();
    let mut manifold = ContactManifold::new();
    let pred = ContactPrediction::new(4);
    let accepted = gen.generate_contacts(
        0,
        0,
        &v(0, 0, 0),
        &ball(2),
        &v(6, 0, 0),
        &ball(2),
        &pred,
        &mut alloc,
        &mut manifold,
    );
    assert!(accepted);
    assert_eq!(manifold.len(), 1);
    assert_eq!(manifold.contacts()[0].contact.depth, -2);
}

#[test]
fn ball_ball_capability_mismatch_leaves_manifold_alone() {
    let mut gen = BallBallManifoldGenerator::new();
    let mut alloc = IdAllocator::new();
    let mut manifold = ContactManifold::new();
    let pred = ContactPrediction::new(0);
    let accepted = gen.generate_contacts(
        0,
        0,
        &v(0, 0, 0),
        &plane(v(0, 1, 0)),
        &v(3, 0, 0),
        &ball(2),
        &pred,
        &mut alloc,
        &mut manifold,
    );
    assert!(!accepted);
    assert_eq!(manifold.len(), 0);
}

#[test]
fn plane_cuboid_four_bottom_contacts() {
    // plane y = 0 with normal +y against a cube of half-extent 5 centred
    // at height 3: four bottom vertices at depth 2
    let mut gen = PlaneConvexPolyhedronManifoldGenerator::new(false);
    let mut alloc = IdAllocator::new();
    let mut manifold = ContactManifold::new();
    let pred = ContactPrediction::new(0);
    let accepted = gen.generate_contacts(
        0,
        0,
        &v(0, 0, 0),
        &plane(v(0, 1, 0)),
        &v(0, 3, 0),
        &cuboid(v(-5, -5, -5), v(5, 5, 5)),
        &pred,
        &mut alloc,
        &mut manifold,
    );
    assert!(accepted);
    assert_eq!(manifold.len(), 4);
    for e in manifold.contacts().iter() {
        assert_eq!(e.contact.depth, 2);
        assert_eq!(e.contact.normal, v(0, 1, 0));
        assert_eq!(e.contact.world2.y, -2);
        assert_eq!(e.contact.world1.y, 0);
        assert_eq!(e.fid1, FeatureId::Face(0));
        assert!(matches!(e.fid2, FeatureId::Vertex(_)));
    }
}

#[test]
fn plane_cuboid_flipped_negates_normal() {
    let mut gen = PlaneConvexPolyhedronManifoldGenerator::new(true);
    let mut alloc = IdAllocator::new();
    let mut manifold = ContactManifold::new();
    let pred = ContactPrediction::new(0);
    let accepted = gen.generate_contacts(
        0,
        0,
        &v(0, 3, 0),
        &cuboid(v(-5, -5, -5), v(5, 5, 5)),
        &v(0, 0, 0),
        &plane(v(0, 1, 0)),
        &pred,
        &mut alloc,
        &mut manifold,
    );
    assert!(accepted);
    assert_eq!(manifold.len(), 4);
    for e in manifold.contacts().iter() {
        assert_eq!(e.contact.normal, v(0, -1, 0));
        assert_eq!(e.contact.depth, 2);
    }
}

#[test]
fn tracking_ids_persist_across_frames() {
    // bit-identical reruns keep the same tracking ids
    let mut gen = PlaneConvexPolyhedronManifoldGenerator::new(false);
    let mut alloc = IdAllocator::new();
    let mut manifold = ContactManifold::new();
    let pred = ContactPrediction::new(0);
    let pl = plane(v(0, 1, 0));
    let cb = cuboid(v(-5, -5, -5), v(5, 5, 5));
    let run = |gen: &mut PlaneConvexPolyhedronManifoldGenerator,
        alloc: &mut IdAllocator,
        manifold: &mut ContactManifold,
        pose: Vec3| {
        gen.generate_contacts(0, 0, &v(0, 0, 0), &pl, &pose, &cb, &pred, alloc, manifold)
    };
    assert!(run(&mut gen, &mut alloc, &mut manifold, v(0, 3, 0)));
    let ids1: Vec<u64> = manifold.contacts().iter().map(|e| e.id).collect();
    assert!(run(&mut gen, &mut alloc, &mut manifold, v(0, 3, 0)));
    let ids2: Vec<u64> = manifold.contacts().iter().map(|e| e.id).collect();
    assert_eq!(ids1, ids2);
    // a small translation that keeps the feature assignment also keeps ids
    assert!(run(&mut gen, &mut alloc, &mut manifold, v(1, 4, 0)));
    let ids3: Vec<u64> = manifold.contacts().iter().map(|e| e.id).collect();
    assert_eq!(ids1, ids3);
}

#[test]
fn manifold_cache_recycles_stale_ids() {
    let mut alloc = IdAllocator::new();
    let mut manifold = ContactManifold::new();
    let kin = ContactKinematic {
        approx1: LocalApprox {
            feature: FeatureId::Face(0),
            point: v(0, 0, 0),
            geom: NeighborhoodGeometry::Point,
        },
        approx2: LocalApprox {
            feature: FeatureId::Face(0),
            point: v(0, 0, 0),
            geom: NeighborhoodGeometry::Point,
        },
        dilation1: 0,
        dilation2: 0,
    };
    let c = Contact { world1: v(0, 0, 0), world2: v(1, 0, 0), normal: v(1, 0, 0), depth: 1 };
    let id0 = manifold
        .push(c, kin, 0, FeatureId::Vertex(7), 0, FeatureId::Face(0), &mut alloc)
        .unwrap();
    manifold.save_cache_and_clear(&mut alloc);
    // same feature key, different coordinates: the id is reused
    let c2 = Contact { world1: v(5, 0, 0), world2: v(6, 0, 0), normal: v(1, 0, 0), depth: -3 };
    let id1 = manifold
        .push(c2, kin, 0, FeatureId::Vertex(7), 0, FeatureId::Face(0), &mut alloc)
        .unwrap();
    assert_eq!(id0, id1);
    // a different key allocates a fresh id
    let id2 = manifold
        .push(c2, kin, 0, FeatureId::Vertex(8), 0, FeatureId::Face(0), &mut alloc)
        .unwrap();
    assert_ne!(id1, id2);
}

#[test]
fn plane_ball_single_contact() {
    // plane y = 0 against a ball of radius 2 centred at height 1:
    // the support point is at y = -1, depth 1
    let mut gen = PlaneConvexPolyhedronManifoldGenerator::new(false);
    let mut alloc = IdAllocator::new();
    let mut manifold = ContactManifold::new();
    let pred = ContactPrediction::new(0);
    let accepted = gen.generate_contacts(
        0,
        0,
        &v(0, 0, 0),
        &plane(v(0, 1, 0)),
        &v(0, 1, 0),
        &ball(2),
        &pred,
        &mut alloc,
        &mut manifold,
    );
    assert!(accepted);
    assert_eq!(manifold.len(), 1);
    let e = &manifold.contacts()[0];
    assert_eq!(e.contact.depth, 1);
    assert_eq!(e.contact.normal, v(0, 1, 0));
    assert_eq!(e.contact.world2, v(0, -1, 0));
    assert_eq!(e.contact.world1, v(0, 0, 0));
}

#[test]
fn manifold_cap_keeps_deepest() {
    // a full manifold replaces its shallowest entry only for a deeper one
    let mut alloc = IdAllocator::new();
    let mut manifold = ContactManifold::new();
    let kin = ContactKinematic {
        approx1: LocalApprox {
            feature: FeatureId::Face(0),
            point: v(0, 0, 0),
            geom: NeighborhoodGeometry::Point,
        },
        approx2: LocalApprox {
            feature: FeatureId::Face(0),
            point: v(0, 0, 0),
            geom: NeighborhoodGeometry::Point,
        },
        dilation1: 0,
        dilation2: 0,
    };
    for (i, d) in [5i64, 1, 4, 3].iter().enumerate() {
        let c = Contact { world1: v(0, 0, 0), world2: v(0, 0, 0), normal: v(1, 0, 0), depth: *d };
        assert!(manifold
            .push(c, kin, 0, FeatureId::Vertex(i as u64), 0, FeatureId::Face(0), &mut alloc)
            .is_some());
    }
    // too shallow for a full manifold: dropped
    let c = Contact { world1: v(0, 0, 0), world2: v(0, 0, 0), normal: v(1, 0, 0), depth: 0 };
    assert!(manifold
        .push(c, kin, 0, FeatureId::Vertex(9), 0, FeatureId::Face(0), &mut alloc)
        .is_none());
    assert_eq!(manifold.len(), 4);
    // deeper than the shallowest: replaces it
    let c = Contact { world1: v(0, 0, 0), world2: v(0, 0, 0), normal: v(1, 0, 0), depth: 7 };
    assert!(manifold
        .push(c, kin, 0, FeatureId::Vertex(10), 0, FeatureId::Face(0), &mut alloc)
        .is_some());
    assert_eq!(manifold.len(), 4);
    assert_eq!(manifold.deepest_contact().unwrap().contact.depth, 7);
    let depths: Vec<i64> = manifold.contacts().iter().map(|e| e.contact.depth).collect();
    assert!(!depths.contains(&1));
}

#[test]
fn deepest_contact_picks_maximum_depth() {
    let mut alloc = IdAllocator::new();
    let mut manifold = ContactManifold::new();
    let kin = ContactKinematic {
        approx1: LocalApprox {
            feature: FeatureId::Face(0),
            point: v(0, 0, 0),
            geom: NeighborhoodGeometry::Point,
        },
        approx2: LocalApprox {
            feature: FeatureId::Face(0),
            point: v(0, 0, 0),
            geom: NeighborhoodGeometry::Point,
        },
        dilation1: 0,
        dilation2: 0,
    };
    assert!(manifold.deepest_contact().is_none());
    for (i, d) in [3i64, 9, 5].iter().enumerate() {
        let c = Contact { world1: v(0, 0, 0), world2: v(0, 0, 0), normal: v(1, 0, 0), depth: *d };
        manifold
            .push(c, kin, 0, FeatureId::Vertex(i as u64), 0, FeatureId::Face(0), &mut alloc)
            .unwrap();
    }
    assert_eq!(manifold.deepest_contact().unwrap().contact.depth, 9);
}

#[test]
fn id_allocator_recycles() {
    let mut alloc = IdAllocator::new();
    let a = alloc.allocate();
    let b = alloc.allocate();
    assert_ne!(a, b);
    alloc.free(a);
    let c = alloc.allocate();
    assert_eq!(c, a);
}

#[test]
fn convex_convex_ball_box_contact() {
    // ball of radius 3 hovering 2 above a box top: touching within reach
    let mut gen = ConvexConvexManifoldGenerator::new();
    let mut alloc = IdAllocator::new();
    let mut manifold = ContactManifold::new();
    let pred = ContactPrediction::new(3);
    let accepted = gen.generate_contacts(
        0,
        0,
        &v(0, 12, 0),
        &ball(3),
        &v(0, 0, 0),
        &cuboid(v(-10, -10, -10), v(10, 10, 10)),
        &pred,
        &mut alloc,
        &mut manifold,
    );
    assert!(accepted);
    assert_eq!(manifold.len(), 1);
    let e = &manifold.contacts()[0];
    // centre is 2 above the top: depth = r - dist = 3 - 2 = 1
    assert_eq!(e.contact.depth, 1);
    assert_eq!(e.contact.normal, v(0, -2, 0));
}

#[test]
fn convex_convex_ball_inside_box() {
    let mut gen = ConvexConvexManifoldGenerator::new();
    let mut alloc = IdAllocator::new();
    let mut manifold = ContactManifold::new();
    let pred = ContactPrediction::new(0);
    let accepted = gen.generate_contacts(
        0,
        0,
        &v(0, 8, 0),
        &ball(3),
        &v(0, 0, 0),
        &cuboid(v(-10, -10, -10), v(10, 10, 10)),
        &pred,
        &mut alloc,
        &mut manifold,
    );
    assert!(accepted);
    assert_eq!(manifold.len(), 1);
    let e = &manifold.contacts()[0];
    // nearest face is the top, 2 away: depth = r + clearance = 5
    assert_eq!(e.contact.depth, 5);
    assert_eq!(e.contact.normal, v(0, 1, 0));
}

#[test]
fn heightfield_caches_and_evicts_sub_detectors() {
    // two cells of width 10; the ball first straddles their shared edge,
    // then moves over the first cell only
    let hf = HeightField { cell_width: 10, base: 0, z_min: -5, z_max: 5, heights: vec![10, 10] };
    let hf_shape = Shape::HeightField(hf);
    let mut gen = HeightFieldShapeManifoldGenerator::new(false);
    let mut alloc = IdAllocator::new();
    let mut manifold = ContactManifold::new();
    let pred = ContactPrediction::new(0);
    let accepted = gen.generate_contacts(
        &v(0, 0, 0),
        &hf_shape,
        &v(10, 12, 0),
        &ball(3),
        &pred,
        &mut alloc,
        &mut manifold,
    );
    assert!(accepted);
    assert!(gen.sub_detectors[0].is_some());
    assert!(gen.sub_detectors[1].is_some());
    // one shared manifold spanning both tiles, with distinct sub-part ids
    assert_eq!(manifold.len(), 2);
    let parts: Vec<u64> = manifold.contacts().iter().map(|e| e.part1).collect();
    assert!(parts.contains(&0) && parts.contains(&1));
    let id_tile0 = manifold.contacts().iter().find(|e| e.part1 == 0).unwrap().id;
    // next frame entirely over the first cell: the second detector is
    // evicted, and the surviving tile's contact keeps its tracking id
    let accepted = gen.generate_contacts(
        &v(0, 0, 0),
        &hf_shape,
        &v(3, 12, 0),
        &ball(3),
        &pred,
        &mut alloc,
        &mut manifold,
    );
    assert!(accepted);
    assert!(gen.sub_detectors[0].is_some());
    assert!(gen.sub_detectors[1].is_none());
    assert_eq!(manifold.len(), 1);
    assert_eq!(manifold.contacts()[0].part1, 0);
    assert_eq!(manifold.contacts()[0].id, id_tile0);
}

#[test]
fn composite_generator_caches_and_evicts() {
    // two ball parts 30 apart; the probe ball first overlaps both reach
    // boxes, then only the first part's
    let comp = Shape::Compound(Compound {
        parts: vec![
            CompoundPart { shift: v(0, 0, 0), shape: SimpleShape::Ball { radius: 4 } },
            CompoundPart { shift: v(30, 0, 0), shape: SimpleShape::Ball { radius: 4 } },
        ],
    });
    let mut gen = CompositeShapeManifoldGenerator::new(false);
    let mut alloc = IdAllocator::new();
    let mut manifold = ContactManifold::new();
    let pred = ContactPrediction::new(0);
    let accepted = gen.generate_contacts(
        &v(0, 0, 0),
        &comp,
        &v(15, 0, 0),
        &ball(12),
        &pred,
        &mut alloc,
        &mut manifold,
    );
    assert!(accepted);
    assert!(gen.sub_detectors[0].is_some());
    assert!(gen.sub_detectors[1].is_some());
    assert!(manifold.len() >= 1);
    let accepted = gen.generate_contacts(
        &v(0, 0, 0),
        &comp,
        &v(0, 0, 0),
        &ball(4),
        &pred,
        &mut alloc,
        &mut manifold,
    );
    assert!(accepted);
    assert!(gen.sub_detectors[0].is_some());
    assert!(gen.sub_detectors[1].is_none());
}

#[test]
fn dispatcher_selects_composite_generator() {
    let d = DefaultContactDispatcher::new();
    let comp = Shape::Compound(Compound {
        parts: vec![CompoundPart { shift: v(0, 0, 0), shape: SimpleShape::Ball { radius: 4 } }],
    });
    match d.get_contact_algorithm(&comp, &ball(2)) {
        Some(ContactAlgorithm::Composite(g)) => assert!(!g.flip),
        _ => panic!("expected the composite generator"),
    }
    match d.get_contact_algorithm(&ball(2), &comp) {
        Some(ContactAlgorithm::Composite(g)) => assert!(g.flip),
        _ => panic!("expected the flipped composite generator"),
    }
}

#[test]
fn dispatcher_matrix_rows() {
    let d = DefaultContactDispatcher::new();
    assert!(matches!(
        d.get_contact_algorithm(&ball(2), &ball(2)),
        Some(ContactAlgorithm::Primitive(PrimitiveAlgorithm::BallBall(_)))
    ));
    match d.get_contact_algorithm(&plane(v(0, 1, 0)), &cuboid(v(-1, -1, -1), v(1, 1, 1))) {
        Some(ContactAlgorithm::Primitive(PrimitiveAlgorithm::PlaneConvex(g))) => {
            assert!(!g.flip)
        },
        _ => panic!("expected the plane-convex generator"),
    }
    match d.get_contact_algorithm(&cuboid(v(-1, -1, -1), v(1, 1, 1)), &plane(v(0, 1, 0))) {
        Some(ContactAlgorithm::Primitive(PrimitiveAlgorithm::PlaneConvex(g))) => {
            assert!(g.flip)
        },
        _ => panic!("expected the flipped plane-convex generator"),
    }
    assert!(matches!(
        d.get_contact_algorithm(&ball(2), &cuboid(v(-1, -1, -1), v(1, 1, 1))),
        Some(ContactAlgorithm::Primitive(PrimitiveAlgorithm::ConvexConvex(_)))
    ));
    let hf = Shape::HeightField(HeightField {
        cell_width: 10,
        base: 0,
        z_min: -5,
        z_max: 5,
        heights: vec![10],
    });
    match d.get_contact_algorithm(&hf, &ball(2)) {
        Some(ContactAlgorithm::HeightField(g)) => assert!(!g.flip),
        _ => panic!("expected the height-field generator"),
    }
    match d.get_contact_algorithm(&ball(2), &hf) {
        Some(ContactAlgorithm::HeightField(g)) => assert!(g.flip),
        _ => panic!("expected the flipped height-field generator"),
    }
    assert!(d.get_contact_algorithm(&plane(v(0, 1, 0)), &plane(v(0, 1, 0))).is_none());
}

#[test]
fn proximity_dispatcher_rows() {
    let d = DefaultProximityDispatcher::new();
    assert!(matches!(
        d.select_proximity_algorithm(&ball(2), &ball(2)),
        Some(ProximityAlgorithm::BallBall(_))
    ));
    assert!(matches!(
        d.select_proximity_algorithm(&plane(v(0, 1, 0)), &ball(2)),
        Some(ProximityAlgorithm::PlaneSupportMap(_))
    ));
    assert!(matches!(
        d.select_proximity_algorithm(&ball(2), &plane(v(0, 1, 0))),
        Some(ProximityAlgorithm::SupportMapPlane(_))
    ));
    assert!(matches!(
        d.select_proximity_algorithm(&ball(2), &cuboid(v(-1, -1, -1), v(1, 1, 1))),
        Some(ProximityAlgorithm::SupportMapSupportMap(_))
    ));
    assert!(d.select_proximity_algorithm(&plane(v(0, 1, 0)), &plane(v(0, 1, 0))).is_none());
}

#[test]
fn support_map_proximity_statuses() {
    let mut det = SupportMapSupportMapProximityDetector::new();
    // ball of radius 2 next to a unit-10 cube: gap 3
    assert!(det.run_update(
        &v(15, 0, 0),
        &ball(2),
        &v(0, 0, 0),
        &cuboid(v(-10, -10, -10), v(10, 10, 10)),
        5
    ));
    assert_eq!(det.current(), Proximity::WithinMargin);
    assert!(det.run_update(
        &v(11, 0, 0),
        &ball(2),
        &v(0, 0, 0),
        &cuboid(v(-10, -10, -10), v(10, 10, 10)),
        0
    ));
    assert_eq!(det.current(), Proximity::Intersecting);
    assert!(det.run_update(
        &v(20, 0, 0),
        &ball(2),
        &v(0, 0, 0),
        &cuboid(v(-10, -10, -10), v(10, 10, 10)),
        5
    ));
    assert_eq!(det.current(), Proximity::Disjoint);
}

#[test]
fn heightfield_accepts_composite_other_without_contacts() {
    // the dispatcher covers no height-field sub-pair against a compound,
    // so the generator accepts the pair but caches nothing
    let hf = HeightField { cell_width: 10, base: 0, z_min: -5, z_max: 5, heights: vec![10] };
    let comp = Shape::Compound(Compound {
        parts: vec![CompoundPart { shift: v(0, 0, 0), shape: SimpleShape::Ball { radius: 2 } }],
    });
    let mut gen = HeightFieldShapeManifoldGenerator::new(false);
    let mut alloc = IdAllocator::new();
    let mut manifold = ContactManifold::new();
    let pred = ContactPrediction::new(0);
    let accepted = gen.generate_contacts(
        &v(0, 0, 0),
        &Shape::HeightField(hf),
        &v(5, 5, 0),
        &comp,
        &pred,
        &mut alloc,
        &mut manifold,
    );
    assert!(accepted);
    assert_eq!(manifold.len(), 0);
    assert!(gen.sub_detectors.iter().all(|e| e.is_none()));
}

#[test]
fn ball_ball_proximity_statuses() {
    let mut det = BallBallProximityDetector::new();
    assert!(det.run_update(&v(0, 0, 0), &ball(2), &v(3, 0, 0), &ball(2), 1));
    assert_eq!(det.current(), Proximity::Intersecting);
    assert!(det.run_update(&v(0, 0, 0), &ball(2), &v(5, 0, 0), &ball(2), 1));
    assert_eq!(det.current(), Proximity::WithinMargin);
    assert!(det.run_update(&v(0, 0, 0), &ball(2), &v(9, 0, 0), &ball(2), 1));
    assert_eq!(det.current(), Proximity::Disjoint);
}

#[test]
fn plane_support_map_proximity() {
    let mut det = PlaneSupportMapProximityDetector::new();
    // ball of radius 2 with its centre 3 above the plane: gap 1
    assert!(det.run_update(&v(0, 0, 0), &plane(v(0, 1, 0)), &v(0, 3, 0), &ball(2), 2));
    assert_eq!(det.current(), Proximity::WithinMargin);
    assert!(det.run_update(&v(0, 0, 0), &plane(v(0, 1, 0)), &v(0, 1, 0), &ball(2), 2));
    assert_eq!(det.current(), Proximity::Intersecting);
    let mut swapped = SupportMapPlaneProximityDetector::new();
    assert!(swapped.run_update(&v(0, 10, 0), &ball(2), &v(0, 0, 0), &plane(v(0, 1, 0)), 2));
    assert_eq!(swapped.current(), Proximity::Disjoint);
}

#[test]
fn shape_against_shape_branches() {
    assert_eq!(
        shape_against_shape(&v(0, 0, 0), &ball(2), &v(3, 0, 0), &ball(2), 0),
        Proximity::Intersecting
    );
    assert_eq!(
        shape_against_shape(&v(0, 0, 0), &plane(v(0, 1, 0)), &v(0, 9, 0), &ball(2), 1),
        Proximity::Disjoint
    );
    assert_eq!(
        shape_against_shape(
            &v(0, 0, 0),
            &cuboid(v(-5, -5, -5), v(5, 5, 5)),
            &v(12, 0, 0),
            &cuboid(v(-5, -5, -5), v(5, 5, 5)),
            3
        ),
        Proximity::WithinMargin
    );
}

#[test]
fn composite_proximity_against_plane_and_composite() {
    let comp = |x: i64| Compound {
        parts: vec![CompoundPart { shift: v(x, 0, 0), shape: SimpleShape::Ball { radius: 2 } }],
    };
    // plane y = 0 under a compound ball centred at height 5: gap 3
    let p = shape_against_shape(
        &v(0, 0, 0),
        &plane(v(0, 1, 0)),
        &v(0, 5, 0),
        &Shape::Compound(comp(0)),
        4,
    );
    assert_eq!(p, Proximity::WithinMargin);
    // two compound balls 10 apart: gap 6
    let p = shape_against_shape(
        &v(0, 0, 0),
        &Shape::Compound(comp(0)),
        &v(10, 0, 0),
        &Shape::Compound(comp(0)),
        3,
    );
    assert_eq!(p, Proximity::Disjoint);
    let p = shape_against_shape(
        &v(0, 0, 0),
        &Shape::Compound(comp(0)),
        &v(3, 0, 0),
        &Shape::Compound(comp(0)),
        3,
    );
    assert_eq!(p, Proximity::Intersecting);
}

#[test]
fn composite_distance_takes_minimum_over_parts() {
    let comp = Compound {
        parts: vec![
            CompoundPart { shift: v(0, 0, 0), shape: SimpleShape::Ball { radius: 2 } },
            CompoundPart { shift: v(10, 0, 0), shape: SimpleShape::Ball { radius: 2 } },
        ],
    };
    let d = composite_shape_against_shape(&v(0, 0, 0), &comp, &v(20, 0, 0), &ball(2));
    assert_eq!(d, 6);
    let p = shape_against_shape(&v(0, 0, 0), &Shape::Compound(comp), &v(20, 0, 0), &ball(2), 10);
    assert_eq!(p, Proximity::WithinMargin);
}

struct Recorder {
    started: Vec<(u64, u64)>,
    stopped: Vec<(u64, u64)>,
}

impl BroadPhaseInterferenceHandler for Recorder {
    fn is_interference_allowed(&mut self, _d1: &u64, _d2: &u64) -> bool {
        true
    }

    fn interference_started(&mut self, d1: &u64, d2: &u64) {
        self.started.push((*d1, *d2));
    }

    fn interference_stopped(&mut self, d1: &u64, d2: &u64) {
        self.stopped.push((*d1, *d2));
    }
}

fn aabb(x0: i64, x1: i64) -> Aabb {
    Aabb { mins: v(x0, 0, 0), maxs: v(x1, 10, 10) }
}

#[test]
fn broad_phase_start_stop_events() {
    // A-B and B-C overlap; A then moves next to C while B leaves
    let mut bp = BruteForceBroadPhase::new();
    let ha = bp.create_proxy(aabb(0, 10), 100);
    let hb = bp.create_proxy(aabb(8, 18), 200);
    let hc = bp.create_proxy(aabb(16, 26), 300);
    let mut rec = Recorder { started: Vec::new(), stopped: Vec::new() };
    bp.update(&mut rec);
    assert_eq!(rec.started, vec![(100, 200), (200, 300)]);
    assert_eq!(rec.stopped, vec![]);

    bp.deferred_set_bounding_volume(ha, aabb(15, 25));
    let removed = bp.remove(&vec![hb]);
    assert_eq!(removed, vec![(100, 200), (200, 300)]);
    let mut rec2 = Recorder { started: Vec::new(), stopped: Vec::new() };
    bp.update(&mut rec2);
    assert_eq!(rec2.started, vec![(100, 300)]);
    assert_eq!(rec2.stopped, vec![]);
    let _ = hc;
}

#[test]
fn broad_phase_create_then_remove_round_trip() {
    // one start when the proxy appears, one stop when it is removed
    let mut bp = BruteForceBroadPhase::new();
    let _ha = bp.create_proxy(aabb(0, 10), 1);
    let hb = bp.create_proxy(aabb(5, 15), 2);
    let mut rec = Recorder { started: Vec::new(), stopped: Vec::new() };
    bp.update(&mut rec);
    assert_eq!(rec.started, vec![(1, 2)]);
    let stopped = bp.remove(&vec![hb]);
    assert_eq!(stopped, vec![(1, 2)]);
    let mut rec2 = Recorder { started: Vec::new(), stopped: Vec::new() };
    bp.update(&mut rec2);
    assert_eq!(rec2.started, vec![]);
    assert_eq!(rec2.stopped, vec![]);
}

#[test]
fn broad_phase_recompute_re_reports() {
    let mut bp = BruteForceBroadPhase::new();
    let ha = bp.create_proxy(aabb(0, 10), 1);
    let _hb = bp.create_proxy(aabb(5, 15), 2);
    let mut rec = Recorder { started: Vec::new(), stopped: Vec::new() };
    bp.update(&mut rec);
    assert_eq!(rec.started, vec![(1, 2)]);
    bp.deferred_recompute_all_proximities_with(ha);
    let mut rec2 = Recorder { started: Vec::new(), stopped: Vec::new() };
    bp.update(&mut rec2);
    assert_eq!(rec2.started, vec![(1, 2)]);
    assert_eq!(rec2.stopped, vec![]);
}

#[test]
fn broad_phase_queries_return_candidates() {
    let mut bp = BruteForceBroadPhase::new();
    let _ = bp.create_proxy(aabb(0, 10), 1);
    let _ = bp.create_proxy(aabb(20, 30), 2);
    let mut rec = Recorder { started: Vec::new(), stopped: Vec::new() };
    bp.update(&mut rec);
    let hits = bp.interferences_with_bounding_volume(&aabb(9, 12));
    assert_eq!(hits, vec![1]);
    let hits = bp.interferences_with_point(&v(25, 5, 5));
    assert_eq!(hits, vec![2]);
}

#[test]
fn proxy_handle_invalid_is_reserved() {
    let h = ProxyHandle::invalid();
    assert!(h.is_invalid());
    assert_eq!(h.uid(), usize::MAX);
    assert!(!ProxyHandle(3).is_invalid());
    assert_eq!(ProxyHandle(3).uid(), 3);
}

fn proximity_interaction(p: Proximity) -> Interaction {
    Interaction::Proximity(ProximityAlgorithm::BallBall(BallBallProximityDetector {
        proximity: p,
    }))
}

fn contact_interaction() -> Interaction {
    Interaction::Contact(
        ContactAlgorithm::Primitive(PrimitiveAlgorithm::BallBall(BallBallManifoldGenerator::new())),
        ContactManifold::new(),
    )
}

#[test]
fn interaction_kind_checks() {
    assert!(contact_interaction().is_contact());
    assert!(!contact_interaction().is_proximity());
    assert!(proximity_interaction(Proximity::Disjoint).is_proximity());
    // an empty manifold is not effective; an intersecting proximity is
    assert!(!is_interaction_effective(&contact_interaction()));
    assert!(is_interaction_effective(&proximity_interaction(Proximity::Intersecting)));
    assert!(!is_interaction_effective(&proximity_interaction(Proximity::WithinMargin)));
}

#[test]
fn interaction_graph_pairs_and_effective_filter() {
    let mut g = InteractionGraph::new();
    let n0 = g.insert(100);
    let n1 = g.insert(200);
    let n2 = g.insert(300);
    assert_eq!((n0, n1, n2), (0, 1, 2));
    g.insert_interaction(n0, n1, proximity_interaction(Proximity::Intersecting)).unwrap();
    g.insert_interaction(n1, n2, proximity_interaction(Proximity::Disjoint)).unwrap();
    let all = g.interaction_pairs(false);
    assert_eq!(all.len(), 2);
    let effective = g.interaction_pairs(true);
    assert_eq!(effective.len(), 1);
    assert_eq!((effective[0].0, effective[0].1), (100, 200));
    // the effective iteration is a subset of the unfiltered one
    for e in &effective {
        assert!(all.contains(e));
    }
    let prox = g.proximity_pairs(false);
    assert_eq!(prox.len(), 2);
    let contacts = g.contact_pairs(false);
    assert_eq!(contacts.len(), 0);
}

#[test]
fn interaction_graph_pair_lookup_and_neighbours() {
    let mut g = InteractionGraph::new();
    let n0 = g.insert(100);
    let n1 = g.insert(200);
    let n2 = g.insert(300);
    g.insert_interaction(n0, n1, proximity_interaction(Proximity::Intersecting)).unwrap();
    g.insert_interaction(n0, n2, contact_interaction()).unwrap();
    assert!(g.interaction_pair(n0, n1, false).is_some());
    assert!(g.interaction_pair(n1, n0, false).is_some());
    assert!(g.interaction_pair(n1, n2, false).is_none());
    assert!(g.proximity_pair(n0, n1, false).is_some());
    assert!(g.contact_pair(n0, n1, false).is_none());
    assert!(g.contact_pair(n0, n2, false).is_some());
    let with0 = g.interactions_with(n0, false);
    assert_eq!(with0.len(), 2);
    let objs = g.collision_objects_interacting_with(n0);
    assert_eq!(objs, vec![200]);
    let in_prox = g.collision_objects_in_proximity_of(n0);
    assert_eq!(in_prox, vec![200]);
    let in_contact = g.collision_objects_in_contact_with(n0);
    assert!(in_contact.is_empty());
}

#[test]
fn interaction_graph_remove_swaps_last_node() {
    let mut g = InteractionGraph::new();
    let n0 = g.insert(100);
    let n1 = g.insert(200);
    let n2 = g.insert(300);
    g.insert_interaction(n0, n1, proximity_interaction(Proximity::Intersecting)).unwrap();
    g.insert_interaction(n1, n2, proximity_interaction(Proximity::Intersecting)).unwrap();
    // removing node 0 moves the handle 300 into its index
    let moved = g.remove(n0);
    assert_eq!(moved, Some(300));
    // the edge between the old nodes 1 and 2 survives under the new index
    let all = g.interaction_pairs(false);
    assert_eq!(all.len(), 1);
    let mut hs = vec![all[0].0, all[0].1];
    hs.sort();
    assert_eq!(hs, vec![200, 300]);
    let _ = n2;
}

#[test]
fn interaction_graph_remove_interaction() {
    let mut g = InteractionGraph::new();
    let n0 = g.insert(100);
    let n1 = g.insert(200);
    g.insert_interaction(n0, n1, contact_interaction()).unwrap();
    let taken = g.remove_interaction(n0, n1);
    assert!(matches!(taken, Some(Interaction::Contact(_, _))));
    assert!(g.interaction_pair(n0, n1, false).is_none());
    assert!(g.remove_interaction(n0, n1).is_none());
}

#[test]
fn full_pipeline_tick() {
    // broad phase finds the pair, the dispatcher allocates an algorithm,
    // the generator fills the manifold, and the graph reports it effective
    let mut bp = BruteForceBroadPhase::new();
    let _ = bp.create_proxy(aabb(0, 10), 0);
    let _ = bp.create_proxy(aabb(8, 18), 1);
    let mut rec = Recorder { started: Vec::new(), stopped: Vec::new() };
    bp.update(&mut rec);
    assert_eq!(rec.started, vec![(0, 1)]);

    let shapes = [ball(4), ball(4)];
    let poses = [v(0, 0, 0), v(6, 0, 0)];
    let mut graph = InteractionGraph::new();
    let i0 = graph.insert(0);
    let i1 = graph.insert(1);
    let d = DefaultContactDispatcher::new();
    let mut alloc = IdAllocator::new();
    for (a, b) in rec.started.iter().map(|p| (p.0 as usize, p.1 as usize)) {
        let algo = d.get_contact_algorithm(&shapes[a], &shapes[b]);
        match algo {
            Some(ContactAlgorithm::Primitive(PrimitiveAlgorithm::BallBall(mut gen))) => {
                let mut manifold = ContactManifold::new();
                let pred = ContactPrediction::new(0);
                assert!(gen.generate_contacts(
                    0,
                    0,
                    &poses[a],
                    &shapes[a],
                    &poses[b],
                    &shapes[b],
                    &pred,
                    &mut alloc,
                    &mut manifold,
                ));
                assert_eq!(manifold.len(), 1);
                assert_eq!(manifold.contacts()[0].contact.depth, 2);
                graph
                    .insert_interaction(
                        a,
                        b,
                        Interaction::Contact(
                            ContactAlgorithm::Primitive(PrimitiveAlgorithm::BallBall(gen)),
                            manifold,
                        ),
                    )
                    .unwrap();
            },
            _ => panic!("expected the ball-ball generator"),
        }
    }
    let effective = graph.interaction_pairs(true);
    assert_eq!(effective.len(), 1);
    let _ = (i0, i1);
}
