//! Spheres, and the analytic ray–sphere intersection.

use vstd::prelude::*;
use crate::fixed::{
    SCALE, COORD_LIMIT, T_LIMIT, POINT_LIMIT, quot, sqrt_floor, isqrt_u128,
    lemma_mul_abs_bound, lemma_sqrt_floor, lemma_sqrt_floor_le,
};
use crate::hittable::{HitRecord, Hittable, spec_face_normal, spec_front_face};
use crate::interval::Interval;
use crate::ray::{Ray, ray_at, ray_within_scene};
use crate::vector3d::{Vector3D, Point3D, within, vsub, vunit, is_zero};

verus! {

/// A sphere in 3D space.  A zero radius is a degenerate point that is never
/// hit.
#[derive(Debug, Clone, Copy, PartialEq, Eq, Structural)]
pub struct Sphere {
    pub center: Point3D,
    pub radius: i64,
}

/// Center and radius stay within the scene coordinate bound.
pub open spec fn sphere_bounded(s: Sphere) -> bool {
    within(s.center, COORD_LIMIT as int) && 0 <= s.radius <= COORD_LIMIT
}

/// `|D|^2`, the quadratic's leading coefficient, at squared scale.
pub open spec fn quad_a(r: Ray) -> int {
    r.direction.x * r.direction.x + r.direction.y * r.direction.y + r.direction.z * r.direction.z
}

/// `dot(O - C, D)`, half the quadratic's middle coefficient, at squared scale.
pub open spec fn quad_half_b(s: Sphere, r: Ray) -> int {
    (r.origin.x - s.center.x) * r.direction.x + (r.origin.y - s.center.y) * r.direction.y + (
    r.origin.z - s.center.z) * r.direction.z
}

/// `|O - C|^2 - radius^2`, the quadratic's constant coefficient, at squared
/// scale.
pub open spec fn quad_c(s: Sphere, r: Ray) -> int {
    (r.origin.x - s.center.x) * (r.origin.x - s.center.x) + (r.origin.y - s.center.y) * (r.origin.y
        - s.center.y) + (r.origin.z - s.center.z) * (r.origin.z - s.center.z) - s.radius * s.radius
}

/// `half_b^2 - a * c`; negative exactly when the ray misses the sphere.
pub open spec fn quad_disc(s: Sphere, r: Ray) -> int {
    quad_half_b(s, r) * quad_half_b(s, r) - quad_a(r) * quad_c(s, r)
}

/// The smaller quadratic root (nearest surface along the ray), rounded
/// toward zero.
pub open spec fn near_root(s: Sphere, r: Ray) -> int {
    quot((-quad_half_b(s, r) - sqrt_floor(quad_disc(s, r))) * SCALE, quad_a(r))
}

/// The larger quadratic root, rounded toward zero.
pub open spec fn far_root(s: Sphere, r: Ray) -> int {
    quot((-quad_half_b(s, r) + sqrt_floor(quad_disc(s, r))) * SCALE, quad_a(r))
}

/// The root the intersection reports: the nearer one when the interval
/// strictly surrounds it, otherwise the farther one.
pub open spec fn chosen_root(s: Sphere, r: Ray, ray_t: Interval) -> int {
    if ray_t.min < near_root(s, r) < ray_t.max {
        near_root(s, r)
    } else {
        far_root(s, r)
    }
}

/// The exact outcome of the analytic intersection: `None` for a degenerate
/// sphere, a degenerate ray, a negative discriminant, a root the interval
/// does not strictly surround, or a sample that collapses onto the center
/// (whose outward normal would be indeterminate); otherwise the full record
/// at the chosen root.
pub open spec fn sphere_hit_model(s: Sphere, r: Ray, ray_t: Interval) -> Option<HitRecord> {
    if s.radius == 0 || quad_a(r) == 0 || quad_disc(s, r) < 0 {
        None
    } else {
        let root = chosen_root(s, r, ray_t);
        if !(ray_t.min < root < ray_t.max) {
            None
        } else {
            let p = ray_at(r, root);
            let diff = vsub(p, s.center);
            if is_zero(diff) {
                None
            } else {
                let outward = vunit(diff);
                Some(
                    HitRecord {
                        p: p,
                        normal: spec_face_normal(r, outward),
                        t: root as i64,
                        front_face: spec_front_face(r, outward),
                    },
                )
            }
        }
    }
}

impl Sphere {
    /// Creates a new sphere with the default parameters: centered at the
    /// origin with radius zero.
    pub fn default() -> (r: Self)
        ensures
            r == (Sphere { center: Vector3D { x: 0, y: 0, z: 0 }, radius: 0 }),
    {
        Self::new(Point3D::new(), 0)
    }

    /// Creates a new sphere with the given center and radius.
    pub fn new(center: Point3D, radius: i64) -> (r: Self)
        ensures
            r == (Sphere { center: center, radius: radius }),
    {
        Sphere { center, radius }
    }

    /// Gets the center of the sphere.
    pub fn center(self) -> (r: Point3D)
        ensures
            r == self.center,
    {
        self.center
    }

    /// Gets the radius of the sphere.
    pub fn radius(self) -> (r: i64)
        ensures
            r == self.radius,
    {
        self.radius
    }
}

/// Whatever record the intersection reports has its parameter strictly
/// inside the search interval and a normal within one whole unit.
pub proof fn lemma_sphere_hit_fields(s: Sphere, r: Ray, ray_t: Interval)
    ensures
        match sphere_hit_model(s, r, ray_t) {
            Some(h) => ray_t.min < h.t < ray_t.max && within(h.normal, SCALE as int),
            None => true,
        },
{
    if sphere_hit_model(s, r, ray_t) is Some {
        let root = chosen_root(s, r, ray_t);
        let p = ray_at(r, root);
        let diff = vsub(p, s.center);
        crate::vector3d::lemma_vunit_within(diff);
    }
}

/// Whenever the discriminant is a perfect square and the root division
/// leaves no remainder, the near root satisfies the ray–sphere quadratic
/// exactly (at the scales involved: the root carries one factor of the
/// scale, the coefficients two): the reported parameter really is an
/// intersection.
pub proof fn lemma_exact_near_root_intersects(s: Sphere, r: Ray)
    requires
        quad_a(r) > 0,
        quad_disc(s, r) >= 0,
        sqrt_floor(quad_disc(s, r)) * sqrt_floor(quad_disc(s, r)) == quad_disc(s, r),
        quad_a(r) * near_root(s, r) == (-quad_half_b(s, r) - sqrt_floor(quad_disc(s, r))) * SCALE,
    ensures
        quad_a(r) * (near_root(s, r) * near_root(s, r)) + 2 * quad_half_b(s, r) * near_root(s, r)
            * SCALE + quad_c(s, r) * SCALE * SCALE == 0,
{
    let a = quad_a(r);
    let h = quad_half_b(s, r);
    let c = quad_c(s, r);
    let sq = sqrt_floor(quad_disc(s, r));
    let t = near_root(s, r);
    let e = a * (t * t) + 2 * h * t * SCALE + c * (SCALE as int) * SCALE;
    assert(a * e == (a * t) * (a * t) + 2 * h * (SCALE as int) * (a * t) + a * c * (
    SCALE as int) * SCALE) by (nonlinear_arith)
        requires
            e == a * (t * t) + 2 * h * t * SCALE + c * (SCALE as int) * SCALE,
    ;
    assert((a * t) * (a * t) + 2 * h * (SCALE as int) * (a * t) + a * c * (SCALE as int) * SCALE
        == (sq * sq - (h * h - a * c)) * ((SCALE as int) * SCALE)) by (nonlinear_arith)
        requires
            a * t == (-h - sq) * SCALE,
    ;
    assert(sq * sq - (h * h - a * c) == 0);
    assert((sq * sq - (h * h - a * c)) * ((SCALE as int) * SCALE) == 0) by (nonlinear_arith)
        requires
            sq * sq - (h * h - a * c) == 0,
    ;
    assert(a * e == 0);
    assert(e == 0) by (nonlinear_arith)
        requires
            a * e == 0 && a > 0,
    ;
}

/// All intermediate quantities of the quadratic stay far inside `i128`.
proof fn lemma_quad_bounds(s: Sphere, r: Ray)
    requires
        sphere_bounded(s),
        ray_within_scene(r),
    ensures
        0 <= quad_a(r) <= 3_000_000_000_000_000_000,
        -6_000_000_000_000_000_000 <= quad_half_b(s, r) <= 6_000_000_000_000_000_000,
        -13_000_000_000_000_000_000 <= quad_c(s, r) <= 13_000_000_000_000_000_000,
        -76_000_000_000_000_000_000_000_000_000_000_000_000 <= quad_disc(s, r)
            <= 76_000_000_000_000_000_000_000_000_000_000_000_000,
        quad_disc(s, r) >= 0 ==> sqrt_floor(quad_disc(s, r)) <= 9_000_000_000_000_000_000,
{
    let cl = COORD_LIMIT as int;
    lemma_mul_abs_bound(r.direction.x as int, r.direction.x as int, cl, cl);
    lemma_mul_abs_bound(r.direction.y as int, r.direction.y as int, cl, cl);
    lemma_mul_abs_bound(r.direction.z as int, r.direction.z as int, cl, cl);
    assert(r.direction.x * r.direction.x >= 0) by (nonlinear_arith);
    assert(r.direction.y * r.direction.y >= 0) by (nonlinear_arith);
    assert(r.direction.z * r.direction.z >= 0) by (nonlinear_arith);
    lemma_mul_abs_bound(r.origin.x - s.center.x, r.direction.x as int, 2 * cl, cl);
    lemma_mul_abs_bound(r.origin.y - s.center.y, r.direction.y as int, 2 * cl, cl);
    lemma_mul_abs_bound(r.origin.z - s.center.z, r.direction.z as int, 2 * cl, cl);
    lemma_mul_abs_bound(r.origin.x - s.center.x, r.origin.x - s.center.x, 2 * cl, 2 * cl);
    lemma_mul_abs_bound(r.origin.y - s.center.y, r.origin.y - s.center.y, 2 * cl, 2 * cl);
    lemma_mul_abs_bound(r.origin.z - s.center.z, r.origin.z - s.center.z, 2 * cl, 2 * cl);
    lemma_mul_abs_bound(s.radius as int, s.radius as int, cl, cl);
    lemma_mul_abs_bound(
        quad_half_b(s, r),
        quad_half_b(s, r),
        6_000_000_000_000_000_000,
        6_000_000_000_000_000_000,
    );
    lemma_mul_abs_bound(
        quad_a(r),
        quad_c(s, r),
        3_000_000_000_000_000_000,
        13_000_000_000_000_000_000,
    );
    if quad_disc(s, r) >= 0 {
        lemma_sqrt_floor_le(
            quad_disc(s, r),
            9_000_000_000_000_000_000,
        );
        assert(76_000_000_000_000_000_000_000_000_000_000_000_000
            <= 9_000_000_000_000_000_000int * 9_000_000_000_000_000_000int) by (nonlinear_arith);
    }
}

impl Hittable for Sphere {
    open spec fn hit_model(&self, r: Ray, ray_t: Interval) -> Option<HitRecord> {
        sphere_hit_model(*self, r, ray_t)
    }

    open spec fn scene_bounded(&self) -> bool {
        sphere_bounded(*self)
    }

    fn hit(&self, r: &Ray, ray_t: Interval, rec: &mut HitRecord) -> (b: bool) {
        proof {
            lemma_quad_bounds(*self, *r);
        }
        if self.radius == 0 {
            return false;
        }
        let ocx: i64 = r.origin.x - self.center.x;
        let ocy: i64 = r.origin.y - self.center.y;
        let ocz: i64 = r.origin.z - self.center.z;
        let dx: i128 = r.direction.x as i128;
        let dy: i128 = r.direction.y as i128;
        let dz: i128 = r.direction.z as i128;
        proof {
            let cl = COORD_LIMIT as int;
            lemma_mul_abs_bound(r.direction.x as int, r.direction.x as int, cl, cl);
            lemma_mul_abs_bound(r.direction.y as int, r.direction.y as int, cl, cl);
            lemma_mul_abs_bound(r.direction.z as int, r.direction.z as int, cl, cl);
            lemma_mul_abs_bound(ocx as int, r.direction.x as int, 2 * cl, cl);
            lemma_mul_abs_bound(ocy as int, r.direction.y as int, 2 * cl, cl);
            lemma_mul_abs_bound(ocz as int, r.direction.z as int, 2 * cl, cl);
            lemma_mul_abs_bound(ocx as int, ocx as int, 2 * cl, 2 * cl);
            lemma_mul_abs_bound(ocy as int, ocy as int, 2 * cl, 2 * cl);
            lemma_mul_abs_bound(ocz as int, ocz as int, 2 * cl, 2 * cl);
            lemma_mul_abs_bound(self.radius as int, self.radius as int, cl, cl);
        }
        let a: i128 = dx * dx + dy * dy + dz * dz;
        let half_b: i128 = (ocx as i128) * dx + (ocy as i128) * dy + (ocz as i128) * dz;
        let c: i128 = (ocx as i128) * (ocx as i128) + (ocy as i128) * (ocy as i128) + (ocz as i128)
            * (ocz as i128) - (self.radius as i128) * (self.radius as i128);
        proof {
            assert(a as int == quad_a(*r));
            assert(half_b as int == quad_half_b(*self, *r));
            assert(c as int == quad_c(*self, *r));
            lemma_mul_abs_bound(
                half_b as int,
                half_b as int,
                6_000_000_000_000_000_000,
                6_000_000_000_000_000_000,
            );
            lemma_mul_abs_bound(
                a as int,
                c as int,
                3_000_000_000_000_000_000,
                13_000_000_000_000_000_000,
            );
        }
        if a == 0 {
            return false;
        }
        let discriminant: i128 = half_b * half_b - a * c;
        if discriminant < 0 {
            return false;
        }
        let sqrtd: i128 = isqrt_u128(discriminant as u128) as i128;
        proof {
            assert(discriminant as int == quad_disc(*self, *r));
            assert(sqrtd as int == sqrt_floor(quad_disc(*self, *r)));
            lemma_mul_abs_bound(
                -(half_b as int) - (sqrtd as int),
                SCALE as int,
                15_000_000_000_000_000_000,
                SCALE as int,
            );
            lemma_mul_abs_bound(
                -(half_b as int) + (sqrtd as int),
                SCALE as int,
                15_000_000_000_000_000_000,
                SCALE as int,
            );
        }

        // Find the nearest root that the interval strictly surrounds.
        let mut root: i128 = (-half_b - sqrtd) * (SCALE as i128) / a;
        if !((ray_t.min as i128) < root && root < (ray_t.max as i128)) {
            root = (-half_b + sqrtd) * (SCALE as i128) / a;
            if !((ray_t.min as i128) < root && root < (ray_t.max as i128)) {
                return false;
            }
        }
        let t: i64 = root as i64;
        let p: Point3D = r.at(t);
        let diff: Vector3D = p.sub(self.center);
        if diff.x == 0 && diff.y == 0 && diff.z == 0 {
            return false;
        }
        let outward: Vector3D = diff.unit_vector();
        rec.t = t;
        rec.p = p;
        rec.set_face_normal(*r, outward);
        true
    }
}

} // verus!
