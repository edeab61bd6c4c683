//! The polymorphic intersection protocol: the record a successful hit
//! produces, and the capability that geometric primitives and composite
//! collections implement.

pub mod hittables;
pub mod sphere;

use vstd::prelude::*;
use crate::fixed::{SCALE, T_LIMIT, lemma_mul_abs_bound};
use crate::interval::Interval;
use crate::ray::{Ray, ray_within_scene};
use crate::vector3d::{Vector3D, Point3D, vdot_wide, vneg, within};

verus! {

/// The information recorded when a ray hits an object.
#[derive(Debug, Clone, Copy, PartialEq, Eq, Structural)]
pub struct HitRecord {
    pub p: Point3D,
    pub normal: Vector3D,
    pub t: i64,
    pub front_face: bool,
}

/// Whether the ray meets the surface from the side its outward normal
/// points to; decided by the exact sign of the wide dot product.
pub open spec fn spec_front_face(r: Ray, outward: Vector3D) -> bool {
    vdot_wide(r.direction, outward) < 0
}

/// The stored normal always points against the incoming ray: the outward
/// normal is kept on a front face and negated otherwise.
pub open spec fn spec_face_normal(r: Ray, outward: Vector3D) -> Vector3D {
    if spec_front_face(r, outward) {
        outward
    } else {
        vneg(outward)
    }
}

impl HitRecord {
    /// Creates a new `HitRecord` with default values.
    pub fn default() -> (r: Self)
        ensures
            r == (HitRecord {
                p: Vector3D { x: 0, y: 0, z: 0 },
                normal: Vector3D { x: 0, y: 0, z: 0 },
                t: 0,
                front_face: false,
            }),
    {
        HitRecord {
            p: Point3D::new(),
            normal: Vector3D::new(),
            t: 0,
            front_face: false,
        }
    }

    /// Creates a record from its four fields.
    pub fn new(p: Point3D, normal: Vector3D, t: i64, front_face: bool) -> (r: Self)
        ensures
            r == (HitRecord { p: p, normal: normal, t: t, front_face: front_face }),
    {
        HitRecord { p, normal, t, front_face }
    }

    /// Gets the intersection point.
    pub fn p(self) -> (r: Point3D)
        ensures
            r == self.p,
    {
        self.p
    }

    /// Gets the stored surface normal.
    pub fn normal(self) -> (r: Vector3D)
        ensures
            r == self.normal,
    {
        self.normal
    }

    /// Gets the ray parameter of the intersection.
    pub fn t(self) -> (r: i64)
        ensures
            r == self.t,
    {
        self.t
    }

    /// Gets the face orientation.
    pub fn front_face(self) -> (r: bool)
        ensures
            r == self.front_face,
    {
        self.front_face
    }

    /// Sets the face normal from the incident ray and the outward normal
    /// (assumed to have unit length), so the stored normal points against
    /// the ray.
    pub fn set_face_normal(&mut self, r: Ray, outward_normal: Vector3D)
        requires
            within(outward_normal, SCALE as int),
        ensures
            final(self).front_face == spec_front_face(r, outward_normal),
            final(self).normal == spec_face_normal(r, outward_normal),
            final(self).p == old(self).p,
            final(self).t == old(self).t,
    {
        proof {
            lemma_mul_abs_bound(
                r.direction.x as int,
                outward_normal.x as int,
                0x8000_0000_0000_0000,
                SCALE as int,
            );
            lemma_mul_abs_bound(
                r.direction.y as int,
                outward_normal.y as int,
                0x8000_0000_0000_0000,
                SCALE as int,
            );
            lemma_mul_abs_bound(
                r.direction.z as int,
                outward_normal.z as int,
                0x8000_0000_0000_0000,
                SCALE as int,
            );
        }
        let s: i128 = (r.direction.x as i128) * (outward_normal.x as i128) + (r.direction.y as i128)
            * (outward_normal.y as i128) + (r.direction.z as i128) * (outward_normal.z as i128);
        self.front_face = s < 0;
        if self.front_face {
            self.normal = outward_normal;
        } else {
            self.normal = Vector3D {
                x: -outward_normal.x,
                y: -outward_normal.y,
                z: -outward_normal.z,
            };
        }
    }
}

/// Capability exposing ray/interval intersection testing.  Implementations
/// report only hits whose parameter the search interval strictly surrounds,
/// and exactly the outcome their `hit_model` describes.
pub trait Hittable {
    /// The exact outcome of intersecting with `r` over the open parameter
    /// interval `ray_t`.
    spec fn hit_model(&self, r: Ray, ray_t: Interval) -> Option<HitRecord>;

    /// Scene bounds under which the intersection arithmetic stays in range.
    spec fn scene_bounded(&self) -> bool;

    /// Checks whether the ray intersects within the open interval; on
    /// success the record is overwritten with the intersection, otherwise it
    /// is left untouched.
    fn hit(&self, r: &Ray, ray_t: Interval, rec: &mut HitRecord) -> (b: bool)
        requires
            self.scene_bounded(),
            ray_within_scene(*r),
            -T_LIMIT <= ray_t.min <= T_LIMIT,
            -T_LIMIT <= ray_t.max <= T_LIMIT,
        ensures
            b == (self.hit_model(*r, ray_t) is Some),
            b ==> Some(*final(rec)) == self.hit_model(*r, ray_t),
            !b ==> *final(rec) == *old(rec),
    ;
}

} // verus!
