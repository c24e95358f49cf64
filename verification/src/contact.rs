//! Contacts, feature identifiers and contact kinematics.
//!
//! A contact's normal is stored as an exact, non-zero integer direction: it
//! stands for the unit vector obtained by normalising it, so unit length
//! holds by representation and orientation statements are exact.

use vstd::prelude::*;
use crate::math::{V3, Vec3};

verus! {

/// Stable identifier of a vertex, edge or face of a shape, used to keep
/// contact identity across frames.
#[derive(Clone, Copy, PartialEq, Eq, Structural, Debug, Hash)]
pub enum FeatureId {
    Vertex(u64),
    Edge(u64),
    Face(u64),
    Unknown,
}

/// A contact: world point on each body, the normal direction from the first
/// body toward the second, and the signed penetration depth (positive means
/// penetration, negative means a speculative contact within the prediction
/// band).
#[derive(Clone, Copy, PartialEq, Eq, Structural, Debug)]
pub struct Contact {
    pub world1: Vec3,
    pub world2: Vec3,
    pub normal: Vec3,
    pub depth: i64,
}

impl Contact {
    /// The stored normal direction is non-zero, so the unit vector it stands
    /// for is defined.
    pub open spec fn wf(self) -> bool {
        !self.normal.view().is_zero()
    }

    /// The same contact seen from the other body: world points swapped and
    /// the normal reversed.
    pub open spec fn spec_flip(self) -> Contact {
        Contact {
            world1: self.world2,
            world2: self.world1,
            normal: Vec3 { x: -self.normal.x as i64, y: -self.normal.y as i64, z: -self.normal.z as i64 },
            depth: self.depth,
        }
    }

    pub fn flip(self) -> (r: Contact)
        requires
            self.normal.view().x > i64::MIN as int,
            self.normal.view().y > i64::MIN as int,
            self.normal.view().z > i64::MIN as int,
        ensures
            r == self.spec_flip(),
    {
        Contact {
            world1: self.world2,
            world2: self.world1,
            normal: Vec3 { x: -self.normal.x, y: -self.normal.y, z: -self.normal.z },
            depth: self.depth,
        }
    }
}

/// Flipping a contact twice gives the contact back.
pub proof fn lemma_contact_flip_involutive(c: Contact)
    requires
        c.normal.wf(),
    ensures
        c.spec_flip().spec_flip() == c,
{
}

/// Local approximation of the geometry around the contact on one body.
#[derive(Clone, Copy, PartialEq, Eq, Structural, Debug)]
pub enum NeighborhoodGeometry {
    Point,
    Plane(Vec3),
    Line(Vec3),
}

/// One side of a contact kinematic: the feature, the local point, and the
/// local geometry near it.
#[derive(Clone, Copy, PartialEq, Eq, Structural, Debug)]
pub struct LocalApprox {
    pub feature: FeatureId,
    pub point: Vec3,
    pub geom: NeighborhoodGeometry,
}

/// Local-frame approximations of the two bodies near a contact, used to
/// recompute the contact quickly at a new pose.
#[derive(Clone, Copy, PartialEq, Eq, Structural, Debug)]
pub struct ContactKinematic {
    pub approx1: LocalApprox,
    pub approx2: LocalApprox,
    pub dilation1: i64,
    pub dilation2: i64,
}

impl ContactKinematic {
    pub open spec fn spec_flip(self) -> ContactKinematic {
        ContactKinematic {
            approx1: self.approx2,
            approx2: self.approx1,
            dilation1: self.dilation2,
            dilation2: self.dilation1,
        }
    }

    pub fn flip(self) -> (r: ContactKinematic)
        ensures
            r == self.spec_flip(),
    {
        ContactKinematic {
            approx1: self.approx2,
            approx2: self.approx1,
            dilation1: self.dilation2,
            dilation2: self.dilation1,
        }
    }
}

/// Flipping a kinematic twice gives the kinematic back.
pub proof fn lemma_kinematic_flip_involutive(k: ContactKinematic)
    ensures
        k.spec_flip().spec_flip() == k,
{
}

/// The distance band within which speculative contacts are generated.
#[derive(Clone, Copy, PartialEq, Eq, Structural, Debug)]
pub struct ContactPrediction {
    pub linear: i64,
}

impl ContactPrediction {
    pub open spec fn wf(self) -> bool {
        0 <= self.linear <= crate::math::COORD_MAX as int
    }

    pub fn new(linear: i64) -> (r: ContactPrediction)
        ensures
            r.linear == linear,
    {
        ContactPrediction { linear }
    }
}

} // verus!
