//! Rays: an origin and a direction, producing points via a scalar parameter.

use vstd::prelude::*;
use crate::fixed::{
    SCALE, COORD_LIMIT, T_LIMIT, POINT_LIMIT, mul_fix, lemma_mul_abs_bound,
    lemma_quot_le_factor, lemma_quot_exact,
};
use crate::vector3d::{Vector3D, Point3D, within, vadd, vsub};

verus! {

/// A ray with an origin and a direction in 3D space.  No unit-length
/// requirement is placed on the direction.
#[derive(Debug, Clone, Copy, PartialEq, Eq, Structural)]
pub struct Ray {
    pub origin: Point3D,
    pub direction: Vector3D,
}

/// The point the ray reaches at parameter `t`: origin plus `t` times the
/// direction, each component rounded toward zero.
pub open spec fn ray_at(r: Ray, t: int) -> Point3D {
    Vector3D {
        x: (r.origin.x + mul_fix(t, r.direction.x as int)) as i64,
        y: (r.origin.y + mul_fix(t, r.direction.y as int)) as i64,
        z: (r.origin.z + mul_fix(t, r.direction.z as int)) as i64,
    }
}

/// Origin and direction components both stay within the scene coordinate
/// bound.
pub open spec fn ray_within_scene(r: Ray) -> bool {
    within(r.origin, COORD_LIMIT as int) && within(r.direction, COORD_LIMIT as int)
}

impl Ray {
    /// Creates a new ray with the given origin and direction.
    pub fn create(origin: Point3D, direction: Vector3D) -> (r: Self)
        ensures
            r == (Ray { origin: origin, direction: direction }),
    {
        Ray { origin, direction }
    }

    /// Gets the origin point of the ray.
    pub fn origin(self) -> (r: Point3D)
        ensures
            r == self.origin,
    {
        self.origin
    }

    /// Gets the direction vector of the ray.
    pub fn direction(self) -> (r: Vector3D)
        ensures
            r == self.direction,
    {
        self.direction
    }

    /// Evaluates the ray at parameter `t`.
    pub fn at(self, t: i64) -> (r: Point3D)
        requires
            ray_within_scene(self),
            -T_LIMIT <= t <= T_LIMIT,
        ensures
            r == ray_at(self, t as int),
            within(r, POINT_LIMIT as int),
    {
        proof {
            lemma_at_bounds(self, t as int);
        }
        Vector3D {
            x: self.origin.x + (((t as i128) * (self.direction.x as i128)) / (SCALE as i128)) as i64,
            y: self.origin.y + (((t as i128) * (self.direction.y as i128)) / (SCALE as i128)) as i64,
            z: self.origin.z + (((t as i128) * (self.direction.z as i128)) / (SCALE as i128)) as i64,
        }
    }
}

/// The scaled products inside `ray_at` stay within `i128`, and the rounded
/// point components within the point bound.
pub proof fn lemma_at_bounds(r: Ray, t: int)
    requires
        ray_within_scene(r),
        -T_LIMIT <= t <= T_LIMIT,
    ensures
        -(T_LIMIT as int) * (COORD_LIMIT as int) <= t * r.direction.x <= (T_LIMIT as int) * (
        COORD_LIMIT as int),
        -(T_LIMIT as int) * (COORD_LIMIT as int) <= t * r.direction.y <= (T_LIMIT as int) * (
        COORD_LIMIT as int),
        -(T_LIMIT as int) * (COORD_LIMIT as int) <= t * r.direction.z <= (T_LIMIT as int) * (
        COORD_LIMIT as int),
        -1_000_000_000_000_000_000 <= mul_fix(t, r.direction.x as int) <= 1_000_000_000_000_000_000,
        -1_000_000_000_000_000_000 <= mul_fix(t, r.direction.y as int) <= 1_000_000_000_000_000_000,
        -1_000_000_000_000_000_000 <= mul_fix(t, r.direction.z as int) <= 1_000_000_000_000_000_000,
{
    lemma_mul_abs_bound(t, r.direction.x as int, T_LIMIT as int, COORD_LIMIT as int);
    lemma_mul_abs_bound(t, r.direction.y as int, T_LIMIT as int, COORD_LIMIT as int);
    lemma_mul_abs_bound(t, r.direction.z as int, T_LIMIT as int, COORD_LIMIT as int);
    lemma_quot_le_factor(t * r.direction.x, SCALE as int, 1_000_000_000_000_000_000);
    lemma_quot_le_factor(t * r.direction.y, SCALE as int, 1_000_000_000_000_000_000);
    lemma_quot_le_factor(t * r.direction.z, SCALE as int, 1_000_000_000_000_000_000);
}

/// A ray is linear in its parameter: at one it reaches origin plus
/// direction, at zero its origin, and at minus one origin minus direction.
pub proof fn lemma_ray_linearity(r: Ray)
    requires
        i64::MIN <= r.origin.x + r.direction.x <= i64::MAX,
        i64::MIN <= r.origin.y + r.direction.y <= i64::MAX,
        i64::MIN <= r.origin.z + r.direction.z <= i64::MAX,
        i64::MIN <= r.origin.x - r.direction.x <= i64::MAX,
        i64::MIN <= r.origin.y - r.direction.y <= i64::MAX,
        i64::MIN <= r.origin.z - r.direction.z <= i64::MAX,
    ensures
        ray_at(r, SCALE as int) == vadd(r.origin, r.direction),
        ray_at(r, 0) == r.origin,
        ray_at(r, -(SCALE as int)) == vsub(r.origin, r.direction),
{
    lemma_unit_parameter_component(r.direction.x as int);
    lemma_unit_parameter_component(r.direction.y as int);
    lemma_unit_parameter_component(r.direction.z as int);
}

proof fn lemma_unit_parameter_component(d: int)
    ensures
        mul_fix(SCALE as int, d) == d,
        mul_fix(0, d) == 0,
        mul_fix(-(SCALE as int), d) == -d,
{
    assert((SCALE as int) * d == d * (SCALE as int)) by (nonlinear_arith);
    lemma_quot_exact(d, SCALE as int);
    assert(0 * d == 0) by (nonlinear_arith);
    lemma_quot_exact(0, SCALE as int);
    assert(0 * (SCALE as int) == 0) by (nonlinear_arith);
    assert((-(SCALE as int)) * d == (-d) * (SCALE as int)) by (nonlinear_arith);
    lemma_quot_exact(-d, SCALE as int);
}

} // verus!
