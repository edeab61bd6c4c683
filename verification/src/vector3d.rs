//! 3-component vectors over fixed-point scalars, reused both as spatial
//! points and as linear RGB colors.
//!
//! Each executable operation has a spec twin (`vadd`, `vdot`, ...) that
//! states its result exactly, including the rounding of the fixed-point
//! products and quotients.

use vstd::prelude::*;
use crate::fixed::{
    SCALE, quot, mul_fix, div_fix, sqrt_floor, isqrt_u128, mul_fix_i64, div_fix_i64,
    lemma_sqrt_floor, lemma_sqrt_floor_le, lemma_mul_abs_bound, lemma_quot_abs_bound,
    lemma_quot_le_factor, lemma_quot_exact,
};
use crate::rng::rand_range;

verus! {

/// Largest component magnitude admitted by the scaled products (`dot`,
/// `cross`, `length_squared`), so their results stay in `i64` range.
pub const COMPONENT_LIMIT: i64 = 50_000_000_000;

/// Largest component magnitude admitted by `length` and `unit_vector`, so
/// the sum of squared components stays in `i128` range.
pub const LENGTH_LIMIT: i64 = 2_000_000_000_000_000_000;

/// Smallest quantized squared length a rejection-sampled candidate may
/// have: a draw shorter than a tenth of a unit would normalize too
/// coarsely, so it is redrawn.
pub const MIN_SAMPLE_SQ: i64 = 10;

/// A 3D vector of fixed-point components.
#[derive(Debug, Clone, Copy, PartialEq, Eq, Structural)]
pub struct Vector3D {
    pub x: i64,
    pub y: i64,
    pub z: i64,
}

/// Alias for a 3D point represented as a vector.
pub type Point3D = Vector3D;

pub open spec fn vadd(a: Vector3D, b: Vector3D) -> Vector3D {
    Vector3D { x: (a.x + b.x) as i64, y: (a.y + b.y) as i64, z: (a.z + b.z) as i64 }
}

pub open spec fn vsub(a: Vector3D, b: Vector3D) -> Vector3D {
    Vector3D { x: (a.x - b.x) as i64, y: (a.y - b.y) as i64, z: (a.z - b.z) as i64 }
}

pub open spec fn vneg(a: Vector3D) -> Vector3D {
    Vector3D { x: (-a.x) as i64, y: (-a.y) as i64, z: (-a.z) as i64 }
}

/// Componentwise fixed-point product.
pub open spec fn vmul(a: Vector3D, b: Vector3D) -> Vector3D {
    Vector3D {
        x: mul_fix(a.x as int, b.x as int) as i64,
        y: mul_fix(a.y as int, b.y as int) as i64,
        z: mul_fix(a.z as int, b.z as int) as i64,
    }
}

/// Fixed-point product with the scalar `t`.
pub open spec fn vscale(a: Vector3D, t: int) -> Vector3D {
    Vector3D {
        x: mul_fix(a.x as int, t) as i64,
        y: mul_fix(a.y as int, t) as i64,
        z: mul_fix(a.z as int, t) as i64,
    }
}

/// Fixed-point quotient by the scalar `t` (`t != 0`).
pub open spec fn vdiv(a: Vector3D, t: int) -> Vector3D {
    Vector3D {
        x: div_fix(a.x as int, t) as i64,
        y: div_fix(a.y as int, t) as i64,
        z: div_fix(a.z as int, t) as i64,
    }
}

/// Exact sum of componentwise products, at squared scale; its sign is the
/// exact sign of the real dot product.
pub open spec fn vdot_wide(a: Vector3D, b: Vector3D) -> int {
    a.x * b.x + a.y * b.y + a.z * b.z
}

/// Fixed-point dot product: the exact sum brought back to scale.
pub open spec fn vdot(a: Vector3D, b: Vector3D) -> int {
    quot(vdot_wide(a, b), SCALE as int)
}

/// Exact sum of squared components, at squared scale.
pub open spec fn vlen_sq_wide(a: Vector3D) -> int {
    a.x * a.x + a.y * a.y + a.z * a.z
}

/// Fixed-point squared length: the wide sum brought back to scale, so any
/// vector shorter than one thousandth-unit squared quantizes to zero (see
/// `lemma_length_zero_relations`).
pub open spec fn vlen_sq(a: Vector3D) -> int {
    quot(vlen_sq_wide(a), SCALE as int)
}

/// Fixed-point length: the floor square root of the wide squared length is
/// already at scale.  It keeps finer resolution than the quantized squared
/// length, and vanishes exactly on the zero vector (see
/// `lemma_length_zero_relations`).
pub open spec fn vlen(a: Vector3D) -> int {
    sqrt_floor(vlen_sq_wide(a))
}

/// Unit vector: each component divided by the length, rounded toward zero;
/// every component of the result lies within one whole unit.
pub open spec fn vunit(a: Vector3D) -> Vector3D {
    Vector3D {
        x: quot(a.x * SCALE, vlen(a)) as i64,
        y: quot(a.y * SCALE, vlen(a)) as i64,
        z: quot(a.z * SCALE, vlen(a)) as i64,
    }
}

/// Fixed-point cross product.
pub open spec fn vcross(a: Vector3D, b: Vector3D) -> Vector3D {
    Vector3D {
        x: quot(a.y * b.z - a.z * b.y, SCALE as int) as i64,
        y: quot(a.z * b.x - a.x * b.z, SCALE as int) as i64,
        z: quot(a.x * b.y - a.y * b.x, SCALE as int) as i64,
    }
}

pub open spec fn in_component_range(a: Vector3D) -> bool {
    &&& -COMPONENT_LIMIT <= a.x <= COMPONENT_LIMIT
    &&& -COMPONENT_LIMIT <= a.y <= COMPONENT_LIMIT
    &&& -COMPONENT_LIMIT <= a.z <= COMPONENT_LIMIT
}

pub open spec fn in_length_range(a: Vector3D) -> bool {
    &&& -LENGTH_LIMIT <= a.x <= LENGTH_LIMIT
    &&& -LENGTH_LIMIT <= a.y <= LENGTH_LIMIT
    &&& -LENGTH_LIMIT <= a.z <= LENGTH_LIMIT
}

pub open spec fn is_zero(a: Vector3D) -> bool {
    a.x == 0 && a.y == 0 && a.z == 0
}

/// Every component of `a` lies within `bound`.
pub open spec fn within(a: Vector3D, bound: int) -> bool {
    &&& -bound <= a.x <= bound
    &&& -bound <= a.y <= bound
    &&& -bound <= a.z <= bound
}

impl Vector3D {
    /// Creates a new vector with components initialized to zero.
    pub fn new() -> (r: Self)
        ensures
            r == (Vector3D { x: 0, y: 0, z: 0 }),
    {
        Vector3D { x: 0, y: 0, z: 0 }
    }

    /// Creates a new vector with the given components.
    pub fn with_values(x: i64, y: i64, z: i64) -> (r: Self)
        ensures
            r == (Vector3D { x: x, y: y, z: z }),
    {
        Vector3D { x, y, z }
    }

    /// Gets the x-component of the vector.
    pub fn x(self) -> (r: i64)
        ensures
            r == self.x,
    {
        self.x
    }

    /// Gets the y-component of the vector.
    pub fn y(self) -> (r: i64)
        ensures
            r == self.y,
    {
        self.y
    }

    /// Gets the z-component of the vector.
    pub fn z(self) -> (r: i64)
        ensures
            r == self.z,
    {
        self.z
    }

    /// Componentwise sum.
    pub fn add(self, other: Vector3D) -> (r: Vector3D)
        requires
            i64::MIN <= self.x + other.x <= i64::MAX,
            i64::MIN <= self.y + other.y <= i64::MAX,
            i64::MIN <= self.z + other.z <= i64::MAX,
        ensures
            r == vadd(self, other),
    {
        Vector3D { x: self.x + other.x, y: self.y + other.y, z: self.z + other.z }
    }

    /// Componentwise difference.
    pub fn sub(self, other: Vector3D) -> (r: Vector3D)
        requires
            i64::MIN <= self.x - other.x <= i64::MAX,
            i64::MIN <= self.y - other.y <= i64::MAX,
            i64::MIN <= self.z - other.z <= i64::MAX,
        ensures
            r == vsub(self, other),
    {
        Vector3D { x: self.x - other.x, y: self.y - other.y, z: self.z - other.z }
    }

    /// Componentwise negation.
    pub fn neg(self) -> (r: Vector3D)
        requires
            i64::MIN < self.x,
            i64::MIN < self.y,
            i64::MIN < self.z,
        ensures
            r == vneg(self),
    {
        Vector3D { x: -self.x, y: -self.y, z: -self.z }
    }

    /// Componentwise fixed-point product.
    pub fn mul(self, other: Vector3D) -> (r: Vector3D)
        requires
            -(i64::MAX as int) <= mul_fix(self.x as int, other.x as int) <= i64::MAX as int,
            -(i64::MAX as int) <= mul_fix(self.y as int, other.y as int) <= i64::MAX as int,
            -(i64::MAX as int) <= mul_fix(self.z as int, other.z as int) <= i64::MAX as int,
        ensures
            r == vmul(self, other),
    {
        Vector3D {
            x: mul_fix_i64(self.x, other.x),
            y: mul_fix_i64(self.y, other.y),
            z: mul_fix_i64(self.z, other.z),
        }
    }

    /// Fixed-point product with the scalar `t`.
    pub fn mul_scalar(self, t: i64) -> (r: Vector3D)
        requires
            -(i64::MAX as int) <= mul_fix(self.x as int, t as int) <= i64::MAX as int,
            -(i64::MAX as int) <= mul_fix(self.y as int, t as int) <= i64::MAX as int,
            -(i64::MAX as int) <= mul_fix(self.z as int, t as int) <= i64::MAX as int,
        ensures
            r == vscale(self, t as int),
    {
        Vector3D { x: mul_fix_i64(self.x, t), y: mul_fix_i64(self.y, t), z: mul_fix_i64(self.z, t) }
    }

    /// Fixed-point quotient by the scalar `t`.
    pub fn div_scalar(self, t: i64) -> (r: Vector3D)
        requires
            t != 0,
            -(i64::MAX as int) <= div_fix(self.x as int, t as int) <= i64::MAX as int,
            -(i64::MAX as int) <= div_fix(self.y as int, t as int) <= i64::MAX as int,
            -(i64::MAX as int) <= div_fix(self.z as int, t as int) <= i64::MAX as int,
        ensures
            r == vdiv(self, t as int),
    {
        Vector3D { x: div_fix_i64(self.x, t), y: div_fix_i64(self.y, t), z: div_fix_i64(self.z, t) }
    }

    /// In-place componentwise sum.
    pub fn add_assign(&mut self, other: Vector3D)
        requires
            i64::MIN <= old(self).x + other.x <= i64::MAX,
            i64::MIN <= old(self).y + other.y <= i64::MAX,
            i64::MIN <= old(self).z + other.z <= i64::MAX,
        ensures
            *final(self) == vadd(*old(self), other),
    {
        self.x = self.x + other.x;
        self.y = self.y + other.y;
        self.z = self.z + other.z;
    }

    /// In-place fixed-point product with the scalar `t`.
    pub fn mul_assign(&mut self, t: i64)
        requires
            -(i64::MAX as int) <= mul_fix(old(self).x as int, t as int) <= i64::MAX as int,
            -(i64::MAX as int) <= mul_fix(old(self).y as int, t as int) <= i64::MAX as int,
            -(i64::MAX as int) <= mul_fix(old(self).z as int, t as int) <= i64::MAX as int,
        ensures
            *final(self) == vscale(*old(self), t as int),
    {
        self.x = mul_fix_i64(self.x, t);
        self.y = mul_fix_i64(self.y, t);
        self.z = mul_fix_i64(self.z, t);
    }

    /// In-place fixed-point quotient by the scalar `t`.
    pub fn div_assign(&mut self, t: i64)
        requires
            t != 0,
            -(i64::MAX as int) <= div_fix(old(self).x as int, t as int) <= i64::MAX as int,
            -(i64::MAX as int) <= div_fix(old(self).y as int, t as int) <= i64::MAX as int,
            -(i64::MAX as int) <= div_fix(old(self).z as int, t as int) <= i64::MAX as int,
        ensures
            *final(self) == vdiv(*old(self), t as int),
    {
        self.x = div_fix_i64(self.x, t);
        self.y = div_fix_i64(self.y, t);
        self.z = div_fix_i64(self.z, t);
    }

    /// Fixed-point dot product with another vector.
    pub fn dot(self, other: Vector3D) -> (r: i64)
        requires
            in_component_range(self),
            in_component_range(other),
        ensures
            r as int == vdot(self, other),
    {
        proof {
            lemma_mul_abs_bound(self.x as int, other.x as int, COMPONENT_LIMIT as int, COMPONENT_LIMIT as int);
            lemma_mul_abs_bound(self.y as int, other.y as int, COMPONENT_LIMIT as int, COMPONENT_LIMIT as int);
            lemma_mul_abs_bound(self.z as int, other.z as int, COMPONENT_LIMIT as int, COMPONENT_LIMIT as int);
            lemma_quot_abs_bound(vdot_wide(self, other), SCALE as int, 3 * (COMPONENT_LIMIT as int) * (COMPONENT_LIMIT as int));
        }
        let wide: i128 = (self.x as i128) * (other.x as i128) + (self.y as i128) * (other.y as i128)
            + (self.z as i128) * (other.z as i128);
        (wide / (SCALE as i128)) as i64
    }

    /// Fixed-point cross product with another vector.
    pub fn cross(self, other: Vector3D) -> (r: Vector3D)
        requires
            in_component_range(self),
            in_component_range(other),
        ensures
            r == vcross(self, other),
    {
        proof {
            lemma_mul_abs_bound(self.y as int, other.z as int, COMPONENT_LIMIT as int, COMPONENT_LIMIT as int);
            lemma_mul_abs_bound(self.z as int, other.y as int, COMPONENT_LIMIT as int, COMPONENT_LIMIT as int);
            lemma_mul_abs_bound(self.z as int, other.x as int, COMPONENT_LIMIT as int, COMPONENT_LIMIT as int);
            lemma_mul_abs_bound(self.x as int, other.z as int, COMPONENT_LIMIT as int, COMPONENT_LIMIT as int);
            lemma_mul_abs_bound(self.x as int, other.y as int, COMPONENT_LIMIT as int, COMPONENT_LIMIT as int);
            lemma_mul_abs_bound(self.y as int, other.x as int, COMPONENT_LIMIT as int, COMPONENT_LIMIT as int);
            lemma_quot_abs_bound(self.y * other.z - self.z * other.y, SCALE as int, 2 * (COMPONENT_LIMIT as int) * (COMPONENT_LIMIT as int));
            lemma_quot_abs_bound(self.z * other.x - self.x * other.z, SCALE as int, 2 * (COMPONENT_LIMIT as int) * (COMPONENT_LIMIT as int));
            lemma_quot_abs_bound(self.x * other.y - self.y * other.x, SCALE as int, 2 * (COMPONENT_LIMIT as int) * (COMPONENT_LIMIT as int));
        }
        let wx: i128 = (self.y as i128) * (other.z as i128) - (self.z as i128) * (other.y as i128);
        let wy: i128 = (self.z as i128) * (other.x as i128) - (self.x as i128) * (other.z as i128);
        let wz: i128 = (self.x as i128) * (other.y as i128) - (self.y as i128) * (other.x as i128);
        Vector3D {
            x: (wx / (SCALE as i128)) as i64,
            y: (wy / (SCALE as i128)) as i64,
            z: (wz / (SCALE as i128)) as i64,
        }
    }

    /// Fixed-point squared length.
    pub fn length_squared(self) -> (r: i64)
        requires
            in_component_range(self),
        ensures
            r as int == vlen_sq(self),
            r >= 0,
    {
        proof {
            lemma_mul_abs_bound(self.x as int, self.x as int, COMPONENT_LIMIT as int, COMPONENT_LIMIT as int);
            lemma_mul_abs_bound(self.y as int, self.y as int, COMPONENT_LIMIT as int, COMPONENT_LIMIT as int);
            lemma_mul_abs_bound(self.z as int, self.z as int, COMPONENT_LIMIT as int, COMPONENT_LIMIT as int);
            lemma_squares_nonneg(self.x as int, self.y as int, self.z as int);
            lemma_quot_abs_bound(vlen_sq_wide(self), SCALE as int, 3 * (COMPONENT_LIMIT as int) * (COMPONENT_LIMIT as int));
        }
        let wide: i128 = (self.x as i128) * (self.x as i128) + (self.y as i128) * (self.y as i128)
            + (self.z as i128) * (self.z as i128);
        (wide / (SCALE as i128)) as i64
    }

    /// Fixed-point length.
    pub fn length(self) -> (r: i64)
        requires
            in_length_range(self),
        ensures
            r as int == vlen(self),
            r >= 0,
    {
        proof {
            lemma_mul_abs_bound(self.x as int, self.x as int, LENGTH_LIMIT as int, LENGTH_LIMIT as int);
            lemma_mul_abs_bound(self.y as int, self.y as int, LENGTH_LIMIT as int, LENGTH_LIMIT as int);
            lemma_mul_abs_bound(self.z as int, self.z as int, LENGTH_LIMIT as int, LENGTH_LIMIT as int);
            lemma_squares_nonneg(self.x as int, self.y as int, self.z as int);
        }
        let wide: i128 = (self.x as i128) * (self.x as i128) + (self.y as i128) * (self.y as i128)
            + (self.z as i128) * (self.z as i128);
        let root: u128 = isqrt_u128(wide as u128);
        proof {
            lemma_root_small(wide as int, root as int);
        }
        root as i64
    }

    /// Returns the unit vector in the direction of this (nonzero) vector;
    /// each component of the result lies within one whole unit.
    pub fn unit_vector(self) -> (r: Vector3D)
        requires
            in_length_range(self),
            !is_zero(self),
        ensures
            r == vunit(self),
            -SCALE <= r.x <= SCALE,
            -SCALE <= r.y <= SCALE,
            -SCALE <= r.z <= SCALE,
    {
        proof {
            lemma_mul_abs_bound(self.x as int, self.x as int, LENGTH_LIMIT as int, LENGTH_LIMIT as int);
            lemma_mul_abs_bound(self.y as int, self.y as int, LENGTH_LIMIT as int, LENGTH_LIMIT as int);
            lemma_mul_abs_bound(self.z as int, self.z as int, LENGTH_LIMIT as int, LENGTH_LIMIT as int);
            lemma_squares_nonneg(self.x as int, self.y as int, self.z as int);
        }
        let wide: i128 = (self.x as i128) * (self.x as i128) + (self.y as i128) * (self.y as i128)
            + (self.z as i128) * (self.z as i128);
        let root: u128 = isqrt_u128(wide as u128);
        proof {
            lemma_root_small(wide as int, root as int);
            lemma_unit_components(self, root as int);
        }
        let len: i128 = root as i128;
        Vector3D {
            x: (((self.x as i128) * (SCALE as i128)) / len) as i64,
            y: (((self.y as i128) * (SCALE as i128)) / len) as i64,
            z: (((self.z as i128) * (SCALE as i128)) / len) as i64,
        }
    }

    /// A vector with each component uniform in `[0, 1)`.
    pub fn random(rng: &mut rand::rngs::StdRng) -> (r: Self)
        ensures
            0 <= r.x < SCALE,
            0 <= r.y < SCALE,
            0 <= r.z < SCALE,
    {
        let x: i64 = rand_range(rng, 0, SCALE);
        let y: i64 = rand_range(rng, 0, SCALE);
        let z: i64 = rand_range(rng, 0, SCALE);
        Vector3D { x, y, z }
    }

    /// A vector with each component uniform in `[min, max)`.
    pub fn random_within(rng: &mut rand::rngs::StdRng, min: i64, max: i64) -> (r: Self)
        requires
            min < max,
        ensures
            min <= r.x < max,
            min <= r.y < max,
            min <= r.z < max,
    {
        let x: i64 = rand_range(rng, min, max);
        let y: i64 = rand_range(rng, min, max);
        let z: i64 = rand_range(rng, min, max);
        Vector3D { x, y, z }
    }

    /// A random vector strictly inside the unit sphere and no shorter than
    /// a tenth of a unit, by rejection sampling.  The retry loop is bounded
    /// so that termination is provable; the far-fetched fallback is a fixed
    /// interior point.
    pub fn random_in_unit_sphere(rng: &mut rand::rngs::StdRng) -> (r: Vector3D)
        ensures
            -SCALE <= r.x < SCALE,
            -SCALE <= r.y < SCALE,
            -SCALE <= r.z < SCALE,
            MIN_SAMPLE_SQ <= vlen_sq(r) < SCALE,
            !is_zero(r),
    {
        let mut attempts: u32 = 0;
        while attempts < 64
            invariant
                true,
            decreases 64 - attempts,
        {
            let p = Self::random_within(rng, -SCALE, SCALE);
            let lsq: i64 = p.length_squared();
            if MIN_SAMPLE_SQ <= lsq && lsq < SCALE {
                proof {
                    lemma_length_zero_relations(p);
                }
                return p;
            }
            attempts = attempts + 1;
        }
        let fallback = Vector3D { x: 0, y: 0, z: 500 };
        proof {
            assert(vlen_sq_wide(fallback) == 250 * (SCALE as int));
            lemma_quot_exact(250, SCALE as int);
        }
        fallback
    }

    /// A random unit vector: a rejection-sampled interior point, normalized.
    /// The result's own fixed-point length stays within about one percent
    /// of a whole unit.
    pub fn random_unit_vector(rng: &mut rand::rngs::StdRng) -> (r: Vector3D)
        ensures
            -SCALE <= r.x <= SCALE,
            -SCALE <= r.y <= SCALE,
            -SCALE <= r.z <= SCALE,
            996 <= vlen(r) <= 1010,
            exists|p: Vector3D|
                MIN_SAMPLE_SQ <= vlen_sq(p) && in_length_range(p) && r == vunit(p),
    {
        let p = Self::random_in_unit_sphere(rng);
        let u = p.unit_vector();
        proof {
            lemma_sample_wide_floor(p);
            lemma_vunit_length_bound(p);
            assert(MIN_SAMPLE_SQ <= vlen_sq(p) && in_length_range(p) && u == vunit(p));
        }
        u
    }

    /// A random unit vector lying on the hemisphere around `normal`: the
    /// exact sign of the dot product decides whether the normalized sample
    /// is kept or negated.
    pub fn random_on_hemisphere(rng: &mut rand::rngs::StdRng, normal: Vector3D) -> (r: Vector3D)
        ensures
            -SCALE <= r.x <= SCALE,
            -SCALE <= r.y <= SCALE,
            -SCALE <= r.z <= SCALE,
            vdot_wide(r, normal) >= 0,
            996 <= vlen(r) <= 1010,
            exists|p: Vector3D|
                MIN_SAMPLE_SQ <= vlen_sq(p) && in_length_range(p) && (r == vunit(p) || r == vneg(
                    vunit(p),
                )),
    {
        let u = Self::random_unit_vector(rng);
        proof {
            lemma_mul_abs_bound(u.x as int, normal.x as int, SCALE as int, 0x8000_0000_0000_0000);
            lemma_mul_abs_bound(u.y as int, normal.y as int, SCALE as int, 0x8000_0000_0000_0000);
            lemma_mul_abs_bound(u.z as int, normal.z as int, SCALE as int, 0x8000_0000_0000_0000);
        }
        let s: i128 = (u.x as i128) * (normal.x as i128) + (u.y as i128) * (normal.y as i128)
            + (u.z as i128) * (normal.z as i128);
        if s > 0 {
            u
        } else {
            let w = Vector3D { x: -u.x, y: -u.y, z: -u.z };
            proof {
                assert(vdot_wide(w, normal) == -vdot_wide(u, normal)) by (nonlinear_arith)
                    requires
                        w.x == -u.x && w.y == -u.y && w.z == -u.z,
                ;
                assert(w == vneg(u));
                lemma_vlen_neg(u);
                let p = choose|p: Vector3D|
                    MIN_SAMPLE_SQ <= vlen_sq(p) && in_length_range(p) && u == vunit(p);
                assert(MIN_SAMPLE_SQ <= vlen_sq(p) && in_length_range(p) && w == vneg(vunit(p)));
            }
            w
        }
    }
}

/// Squared quantization error of one normalized component: with `q` the
/// component divided by the length (rounded toward zero), `q^2` scaled by
/// `len^2` falls short of the exact `c^2 * SCALE^2` by at most two scale
/// steps of `len^2`.
proof fn lemma_unit_comp_sq(c: int, len: int)
    requires
        0 < len,
        -len <= c <= len,
    ensures
        len * len * (quot(c * SCALE, len) * quot(c * SCALE, len)) <= (c * c) * ((
        SCALE as int) * SCALE),
        len * len * (quot(c * SCALE, len) * quot(c * SCALE, len)) >= (c * c) * ((
        SCALE as int) * SCALE) - 2 * (SCALE as int) * (len * len),
{
    let s = SCALE as int;
    let a = if c >= 0 {
        c
    } else {
        -c
    };
    let q = quot(c * s, len);
    let qa = (a * s) / len;
    if c >= 0 {
        assert(q == qa);
    } else {
        assert(c * s == -(a * s)) by (nonlinear_arith)
            requires
                a == -c,
        ;
        assert(q == -qa);
    }
    assert(q * q == qa * qa) by (nonlinear_arith)
        requires
            q == qa || q == -qa,
    ;
    vstd::arithmetic::div_mod::lemma_fundamental_div_mod(a * s, len);
    vstd::arithmetic::div_mod::lemma_mod_bound(a * s, len);
    let r = (a * s) % len;
    assert(a * s == len * qa + r);
    assert(0 <= r < len);
    assert(0 <= a * s) by (nonlinear_arith)
        requires
            0 <= a && 0 <= s,
    ;
    assert(0 <= qa) by (nonlinear_arith)
        requires
            len * qa + r == a * s && 0 <= a * s && 0 <= r < len && 0 < len,
    ;
    assert(len * qa <= a * s);
    assert(0 <= len * qa) by (nonlinear_arith)
        requires
            0 < len && 0 <= qa,
    ;
    assert((len * qa) * (len * qa) <= (a * s) * (a * s)) by (nonlinear_arith)
        requires
            0 <= len * qa && len * qa <= a * s,
    ;
    assert(len * len * (qa * qa) == (len * qa) * (len * qa)) by (nonlinear_arith);
    assert(len * len * (qa * qa) == (a * s) * (a * s) - 2 * (a * s) * r + r * r)
        by (nonlinear_arith)
        requires
            a * s == len * qa + r,
    ;
    assert((a * s) * (a * s) == (c * c) * (s * s)) by (nonlinear_arith)
        requires
            a == c || a == -c,
    ;
    assert(0 <= 2 * (a * s) * r) by (nonlinear_arith)
        requires
            0 <= a * s && 0 <= r,
    ;
    assert(0 <= r * r) by (nonlinear_arith);
    assert(2 * (a * s) * r <= 2 * s * (len * len)) by (nonlinear_arith)
        requires
            0 <= a <= len && 0 <= r < len && 0 < s,
    ;
}

/// The quantized unit vector of any sample at least a tenth of a unit long
/// has length within about one percent of a whole unit.
pub proof fn lemma_vunit_length_bound(v: Vector3D)
    requires
        vlen_sq_wide(v) >= 10_000,
    ensures
        996 <= vlen(vunit(v)) <= 1010,
{
    let n = vlen_sq_wide(v);
    let len = vlen(v);
    lemma_squares_nonneg(v.x as int, v.y as int, v.z as int);
    lemma_sqrt_floor(n);
    if is_zero(v) {
        assert(n == 0);
        assert(false);
    }
    if len < 100 {
        assert((len + 1) * (len + 1) <= 10_000) by (nonlinear_arith)
            requires
                0 <= len < 100,
        ;
        assert(false);
    }
    lemma_unit_components(v, len);
    let qx = quot((v.x as int) * SCALE, len);
    let qy = quot((v.y as int) * SCALE, len);
    let qz = quot((v.z as int) * SCALE, len);
    lemma_unit_comp_sq(v.x as int, len);
    lemma_unit_comp_sq(v.y as int, len);
    lemma_unit_comp_sq(v.z as int, len);
    let quality = qx * qx + qy * qy + qz * qz;
    assert(len * len * quality == len * len * (qx * qx) + len * len * (qy * qy) + len * len * (qz
        * qz)) by (nonlinear_arith)
        requires
            quality == qx * qx + qy * qy + qz * qz,
    ;
    assert(((v.x as int) * (v.x as int)) * ((SCALE as int) * SCALE) + ((v.y as int) * (v.y
        as int)) * ((SCALE as int) * SCALE) + ((v.z as int) * (v.z as int)) * ((SCALE as int)
        * SCALE) == n * ((SCALE as int) * SCALE)) by (nonlinear_arith)
        requires
            n == v.x * v.x + v.y * v.y + v.z * v.z,
    ;
    // Upper bound: n < (len + 1)^2, so a sum of squares beyond 1010^2 would
    // force len below 100.
    assert(len * len * quality <= n * ((SCALE as int) * SCALE));
    assert(n * ((SCALE as int) * SCALE) <= (len * len + 2 * len) * ((SCALE as int) * SCALE))
        by (nonlinear_arith)
        requires
            n < (len + 1) * (len + 1),
    ;
    if quality > 1_020_100 {
        assert(len * len * 1_020_101 <= len * len * quality) by (nonlinear_arith)
            requires
                1_020_101 <= quality,
        ;
        assert(false) by (nonlinear_arith)
            requires
                len * len * 1_020_101 <= (len * len + 2 * len) * ((SCALE as int) * SCALE) && SCALE
                    == 1000 && len >= 100,
        ;
    }
    // Lower bound: each squared component loses at most two scale steps.
    assert(len * len * quality >= n * ((SCALE as int) * SCALE) - 2 * (SCALE as int) * (len * len)
        - 2 * (SCALE as int) * (len * len) - 2 * (SCALE as int) * (len * len));
    assert(n * ((SCALE as int) * SCALE) >= (len * len) * ((SCALE as int) * SCALE))
        by (nonlinear_arith)
        requires
            len * len <= n,
    ;
    assert(quality >= 994_000) by (nonlinear_arith)
        requires
            len * len * quality >= (len * len) * ((SCALE as int) * SCALE) - 2 * (SCALE as int) * (
            len * len) - 2 * (SCALE as int) * (len * len) - 2 * (SCALE as int) * (len * len) && 0
                < len && SCALE == 1000,
    ;
    // The unit vector's components are exactly the quantized quotients.
    assert(vlen_sq_wide(vunit(v)) == quality) by (nonlinear_arith)
        requires
            vunit(v).x == qx && vunit(v).y == qy && vunit(v).z == qz && quality == qx * qx + qy
                * qy + qz * qz,
    ;
    lemma_sqrt_floor_le(quality, 1010);
    lemma_sqrt_floor(quality);
    if sqrt_floor(quality) < 996 {
        assert((sqrt_floor(quality) + 1) * (sqrt_floor(quality) + 1) <= 992_016)
            by (nonlinear_arith)
            requires
                0 <= sqrt_floor(quality) < 996,
        ;
        assert(false);
    }
}

/// A sample whose quantized squared length reaches the rejection floor has
/// a wide squared length of at least ten thousand steps.
proof fn lemma_sample_wide_floor(v: Vector3D)
    requires
        MIN_SAMPLE_SQ <= vlen_sq(v),
    ensures
        vlen_sq_wide(v) >= 10_000,
        !is_zero(v),
{
    let s = SCALE as int;
    let n = vlen_sq_wide(v);
    lemma_squares_nonneg(v.x as int, v.y as int, v.z as int);
    vstd::arithmetic::div_mod::lemma_fundamental_div_mod(n, s);
    vstd::arithmetic::div_mod::lemma_mod_bound(n, s);
    assert(s * (n / s) >= s * 10) by (nonlinear_arith)
        requires
            n / s >= 10 && s > 0,
    ;
}

/// Negating a vector keeps its length.
proof fn lemma_vlen_neg(u: Vector3D)
    requires
        within(u, SCALE as int),
    ensures
        vlen(vneg(u)) == vlen(u),
{
    assert(vlen_sq_wide(vneg(u)) == vlen_sq_wide(u)) by (nonlinear_arith)
        requires
            vneg(u).x == -u.x && vneg(u).y == -u.y && vneg(u).z == -u.z,
    ;
}

/// How the two length measures relate through quantization.  The length is
/// computed from the exact wide sum, so it is zero exactly for the zero
/// vector, and a zero length forces a zero squared length.  The quantized
/// squared length vanishes more often: exactly when the wide sum is below
/// one scale step, that is for every vector shorter than the quantization
/// grain.
pub proof fn lemma_length_zero_relations(v: Vector3D)
    ensures
        (vlen(v) == 0) <==> is_zero(v),
        (vlen_sq(v) == 0) <==> (vlen_sq_wide(v) < SCALE),
        vlen(v) == 0 ==> vlen_sq(v) == 0,
{
    let n = vlen_sq_wide(v);
    lemma_squares_nonneg(v.x as int, v.y as int, v.z as int);
    lemma_sqrt_floor(n);
    if is_zero(v) {
        assert(n == 0);
    }
    if !is_zero(v) {
        assert(n >= 1) by (nonlinear_arith)
            requires
                n == v.x * v.x + v.y * v.y + v.z * v.z,
                !(v.x == 0 && v.y == 0 && v.z == 0),
        ;
        if sqrt_floor(n) == 0 {
            assert((sqrt_floor(n) + 1) * (sqrt_floor(n) + 1) == 1) by (nonlinear_arith)
                requires
                    sqrt_floor(n) == 0,
            ;
            assert(false);
        }
    }
    if n < SCALE {
        vstd::arithmetic::div_mod::lemma_basic_div(n, SCALE as int);
    }
    if vlen_sq(v) == 0 {
        vstd::arithmetic::div_mod::lemma_small_div_converse(n, SCALE as int);
    }
}

/// The unit vector of a nonzero vector has every component within one
/// whole unit.
pub proof fn lemma_vunit_within(v: Vector3D)
    requires
        !is_zero(v),
    ensures
        within(vunit(v), SCALE as int),
        -SCALE <= quot(v.x * SCALE, vlen(v)) <= SCALE,
        -SCALE <= quot(v.y * SCALE, vlen(v)) <= SCALE,
        -SCALE <= quot(v.z * SCALE, vlen(v)) <= SCALE,
{
    lemma_unit_components(v, vlen(v));
}

/// Vector addition is commutative.
pub proof fn lemma_add_commutes(a: Vector3D, b: Vector3D)
    ensures
        vadd(a, b) == vadd(b, a),
{
}

/// The dot product is commutative.
pub proof fn lemma_dot_commutes(a: Vector3D, b: Vector3D)
    ensures
        vdot(a, b) == vdot(b, a),
{
    assert(vdot_wide(a, b) == vdot_wide(b, a)) by (nonlinear_arith);
}

/// Scaling by the scalar one is the identity.
pub proof fn lemma_scale_by_one(v: Vector3D)
    ensures
        vscale(v, SCALE as int) == v,
{
    lemma_quot_exact(v.x as int, SCALE as int);
    lemma_quot_exact(v.y as int, SCALE as int);
    lemma_quot_exact(v.z as int, SCALE as int);
}

/// Doubling a vector and then halving it returns the original.
pub proof fn lemma_double_halve(v: Vector3D)
    requires
        within(v, (i64::MAX as int) / 2),
    ensures
        vdiv(vscale(v, 2 * (SCALE as int)), 2 * (SCALE as int)) == v,
{
    lemma_double_halve_component(v.x as int);
    lemma_double_halve_component(v.y as int);
    lemma_double_halve_component(v.z as int);
}

proof fn lemma_double_halve_component(c: int)
    requires
        -((i64::MAX as int) / 2) <= c <= (i64::MAX as int) / 2,
    ensures
        mul_fix(c, 2 * (SCALE as int)) == 2 * c,
        div_fix(2 * c, 2 * (SCALE as int)) == c,
{
    assert(c * (2 * (SCALE as int)) == (2 * c) * (SCALE as int)) by (nonlinear_arith);
    lemma_quot_exact(2 * c, SCALE as int);
    assert((2 * c) * (SCALE as int) == c * (2 * (SCALE as int))) by (nonlinear_arith);
    lemma_quot_exact(c, 2 * (SCALE as int));
}

/// The cross product of a vector with itself is the zero vector.
pub proof fn lemma_cross_self(v: Vector3D)
    ensures
        vcross(v, v) == (Vector3D { x: 0, y: 0, z: 0 }),
{
    assert(v.y * v.z - v.z * v.y == 0) by (nonlinear_arith);
    assert(v.z * v.x - v.x * v.z == 0) by (nonlinear_arith);
    assert(v.x * v.y - v.y * v.x == 0) by (nonlinear_arith);
    lemma_quot_exact(0, SCALE as int);
    assert(0 * (SCALE as int) == 0) by (nonlinear_arith);
}

proof fn lemma_squares_nonneg(x: int, y: int, z: int)
    ensures
        x * x >= 0,
        y * y >= 0,
        z * z >= 0,
{
    lemma_mul_abs_bound(x, x, if x >= 0 { x } else { -x }, if x >= 0 { x } else { -x });
    assert(x * x >= 0) by (nonlinear_arith);
    assert(y * y >= 0) by (nonlinear_arith);
    assert(z * z >= 0) by (nonlinear_arith);
}

/// A floor square root of a sum of at most three squared `i64` values fits
/// comfortably in `i64`.
proof fn lemma_root_small(n: int, root: int)
    requires
        0 <= n <= 12_000_000_000_000_000_000_000_000_000_000_000_000,
        root == sqrt_floor(n),
    ensures
        0 <= root <= 3_500_000_000_000_000_000,
{
    lemma_sqrt_floor(n);
    if root > 3_500_000_000_000_000_000 {
        assert(root * root > 12_000_000_000_000_000_000_000_000_000_000_000_000int)
            by (nonlinear_arith)
            requires
                root > 3_500_000_000_000_000_000,
        ;
    }
}

/// Each component of a vector is bounded by the floor square root of its
/// wide squared length, so the normalized components stay within one unit.
proof fn lemma_unit_components(v: Vector3D, root: int)
    requires
        !is_zero(v),
        root == sqrt_floor(vlen_sq_wide(v)),
    ensures
        root >= 1,
        -(root * (SCALE as int)) <= v.x * SCALE <= root * (SCALE as int),
        -(root * (SCALE as int)) <= v.y * SCALE <= root * (SCALE as int),
        -(root * (SCALE as int)) <= v.z * SCALE <= root * (SCALE as int),
        -SCALE <= quot(v.x * SCALE, root) <= SCALE,
        -SCALE <= quot(v.y * SCALE, root) <= SCALE,
        -SCALE <= quot(v.z * SCALE, root) <= SCALE,
{
    let n = vlen_sq_wide(v);
    lemma_squares_nonneg(v.x as int, v.y as int, v.z as int);
    assert(n >= 1) by (nonlinear_arith)
        requires
            n == v.x * v.x + v.y * v.y + v.z * v.z,
            !(v.x == 0 && v.y == 0 && v.z == 0),
    ;
    lemma_sqrt_floor(n);
    if root < 1 {
        assert(root == 0);
        assert((root + 1) * (root + 1) == 1) by (nonlinear_arith)
            requires
                root == 0,
        ;
        assert(false);
    }
    lemma_component_within_root(v.x as int, n, root);
    lemma_component_within_root(v.y as int, n, root);
    lemma_component_within_root(v.z as int, n, root);
    assert(v.x * v.x + v.y * v.y + v.z * v.z == n);
    lemma_quot_le_factor(v.x * SCALE, root, SCALE as int);
    lemma_quot_le_factor(v.y * SCALE, root, SCALE as int);
    lemma_quot_le_factor(v.z * SCALE, root, SCALE as int);
}

/// A value whose square is within `n` is itself within `sqrt_floor(n)`.
proof fn lemma_component_within_root(c: int, n: int, root: int)
    requires
        c * c <= n,
        0 <= root,
        root * root <= n,
        n < (root + 1) * (root + 1),
    ensures
        -root <= c <= root,
        -(root * (SCALE as int)) <= c * SCALE <= root * (SCALE as int),
{
    assert(-root <= c <= root) by (nonlinear_arith)
        requires
            c * c <= n,
            0 <= root,
            n < (root + 1) * (root + 1),
    ;
    assert(-(root * (SCALE as int)) <= c * SCALE <= root * (SCALE as int)) by (nonlinear_arith)
        requires
            -root <= c <= root,
            0 <= root,
    ;
}

} // verus!
