//! The camera: viewport derivation from aspect ratio and resolution,
//! jittered per-pixel ray generation, normal-visualization shading with a
//! sky gradient, and the render loop that folds everything into a P3 image.

use vstd::prelude::*;
use crate::color::{Color, color_line};
use crate::fixed::{
    SCALE, T_LIMIT, quot, mul_fix, lemma_mul_abs_bound, lemma_quot_abs_bound, lemma_quot_le_factor,
};
use crate::hittable::hittables::{HittableList, members, list_hit_model, lemma_list_hit_in_interval};
use crate::hittable::sphere::Sphere;
use crate::hittable::{HitRecord, Hittable};
use crate::interval::Interval;
use crate::ray::{Ray, ray_within_scene};
use crate::rng::rand_range;
use crate::text::{dec_digits, push_decimal};
use crate::vector3d::{Vector3D, Point3D, within, is_zero, vadd, vsub, vscale, vunit};

verus! {

/// Half of a fixed-point unit: the jitter of an antialiasing sample is
/// uniform in `[-HALF_UNIT, HALF_UNIT)` of a pixel step.
pub const HALF_UNIT: i64 = 500;

/// A camera at the world origin with focal length one and viewport height
/// two, rendering row-major with box-filter antialiasing jitter.  There is
/// no recursive scattering: each ray evaluates to a single shading, so the
/// camera carries no bounce-limit setting.
#[derive(Debug, Clone, Copy)]
pub struct Camera {
    pub aspect_ratio: i64,
    pub image_width: u16,
    pub samples_per_pixel: u16,
    pub image_height: u16,
    pub center: Point3D,
    pub pixel00_loc: Point3D,
    pub pixel_du: Vector3D,
    pub pixel_dv: Vector3D,
}

/// Image height derived from the width and the fixed-point aspect ratio:
/// their quotient rounded to the nearest integer (halves rounding up),
/// never below one.
pub open spec fn spec_image_height(aspect_ratio: int, image_width: int) -> int {
    let h = quot(2 * image_width * SCALE + aspect_ratio, 2 * aspect_ratio);
    if h < 1 {
        1
    } else {
        h
    }
}

/// The rounded height of any admissible configuration is small.
proof fn lemma_height_quotient_bounds(aspect_ratio: int, image_width: int)
    requires
        1 <= aspect_ratio,
        1 <= image_width < 65536,
    ensures
        0 <= quot(2 * image_width * SCALE + aspect_ratio, 2 * aspect_ratio) <= 66_000_000,
{
    let num = 2 * image_width * SCALE + aspect_ratio;
    let den = 2 * aspect_ratio;
    let cap = image_width * (SCALE as int) + 1;
    assert(0 <= num <= den * cap) by (nonlinear_arith)
        requires
            1 <= aspect_ratio && 1 <= image_width && num == 2 * image_width * SCALE + aspect_ratio
                && den == 2 * aspect_ratio && cap == image_width * (SCALE as int) + 1 && SCALE
                == 1000,
    ;
    lemma_quot_le_factor(num, den, cap);
}

/// Fixed-point viewport width: viewport height two times width over height.
pub open spec fn spec_viewport_width(image_width: int, image_height: int) -> int {
    quot(2 * SCALE * image_width, image_height)
}

/// Horizontal step from one pixel to the next.
pub open spec fn spec_pixel_du(image_width: int, image_height: int) -> Vector3D {
    Vector3D {
        x: quot(spec_viewport_width(image_width, image_height), image_width) as i64,
        y: 0,
        z: 0,
    }
}

/// Vertical step from one pixel to the next; points downward so image rows
/// run top to bottom.
pub open spec fn spec_pixel_dv(image_height: int) -> Vector3D {
    Vector3D { x: 0, y: (-quot(2 * SCALE, image_height)) as i64, z: 0 }
}

/// World position of the center of the top-left pixel.
pub open spec fn spec_pixel00(image_width: int, image_height: int) -> Point3D {
    let vw = spec_viewport_width(image_width, image_height);
    let du = spec_pixel_du(image_width, image_height);
    let dv = spec_pixel_dv(image_height);
    Vector3D {
        x: (-quot(vw, 2) + quot(du.x as int, 2)) as i64,
        y: (SCALE + quot(dv.y as int, 2)) as i64,
        z: ((-SCALE) as i64),
    }
}

/// The derived fields agree with the configuration; established by
/// construction and immutable afterwards.
pub open spec fn camera_wf(c: Camera) -> bool {
    &&& c.aspect_ratio > 0
    &&& c.image_width >= 1
    &&& c.samples_per_pixel >= 1
    &&& c.image_height as int == spec_image_height(c.aspect_ratio as int, c.image_width as int)
    &&& c.center == (Vector3D { x: 0, y: 0, z: 0 })
    &&& c.pixel_du == spec_pixel_du(c.image_width as int, c.image_height as int)
    &&& c.pixel_dv == spec_pixel_dv(c.image_height as int)
    &&& c.pixel00_loc == spec_pixel00(c.image_width as int, c.image_height as int)
}

/// The derived vectors of a well-formed camera are small against the scene
/// coordinate bound.
pub proof fn lemma_camera_bounds(c: Camera)
    requires
        camera_wf(c),
    ensures
        1 <= c.image_height,
        0 <= c.pixel_du.x <= 132_000_000,
        c.pixel_du.y == 0 && c.pixel_du.z == 0,
        -2_000 <= c.pixel_dv.y <= 0,
        c.pixel_dv.x == 0 && c.pixel_dv.z == 0,
        -132_000_000 <= c.pixel00_loc.x <= 0,
        0 <= c.pixel00_loc.y <= 1_000,
        c.pixel00_loc.z == -1_000,
        (c.image_width as int) * (c.pixel_du.x as int) <= spec_viewport_width(
            c.image_width as int,
            c.image_height as int,
        ) <= 132_000_000,
{
    let w = c.image_width as int;
    let h = c.image_height as int;
    let vw = spec_viewport_width(w, h);
    assert(0 <= 2 * (SCALE as int) * w <= 132_000_000) by (nonlinear_arith)
        requires
            1 <= w < 65536,
    ;
    lemma_quot_abs_bound(2 * SCALE * w, h, 132_000_000);
    lemma_quot_abs_bound(vw, w, 132_000_000);
    lemma_quot_abs_bound(vw, 2, 132_000_000);
    lemma_quot_abs_bound(spec_pixel_du(w, h).x as int, 2, 132_000_000);
    lemma_quot_abs_bound(2 * SCALE, h, 2_000);
    lemma_quot_abs_bound(spec_pixel_dv(h).y as int, 2, 2_000);
    assert(0 <= quot(vw, w) <= vw) by {
        lemma_quot_abs_bound(vw, w, if vw >= 0 { vw } else { 0 });
    }
    assert((c.pixel_du.x as int) * w <= vw) by {
        vstd::arithmetic::div_mod::lemma_fundamental_div_mod(vw, w);
        assert(vw % w >= 0);
        assert(quot(vw, w) == vw / w);
        assert(w * (vw / w) == (vw / w) * w) by (nonlinear_arith);
    }
    assert(w * (c.pixel_du.x as int) == (c.pixel_du.x as int) * w) by (nonlinear_arith);
}

/// The jitter offset: the two jitter scalars applied to the pixel steps.
pub open spec fn spec_sample_offset(c: Camera, jx: int, jy: int) -> Vector3D {
    vadd(vscale(c.pixel_du, jx), vscale(c.pixel_dv, jy))
}

/// The world position of the center of pixel `(i, j)`.
pub open spec fn spec_pixel_center(c: Camera, i: int, j: int) -> Point3D {
    Vector3D {
        x: (c.pixel00_loc.x + i * c.pixel_du.x + j * c.pixel_dv.x) as i64,
        y: (c.pixel00_loc.y + i * c.pixel_du.y + j * c.pixel_dv.y) as i64,
        z: (c.pixel00_loc.z + i * c.pixel_du.z + j * c.pixel_dv.z) as i64,
    }
}

/// The sample ray for pixel `(i, j)` under the given jitter: from the
/// camera center through the jittered pixel position.
pub open spec fn spec_camera_ray(c: Camera, i: int, j: int, jx: int, jy: int) -> Ray {
    let sample = vadd(spec_pixel_center(c, i, j), spec_sample_offset(c, jx, jy));
    Ray { origin: c.center, direction: vsub(sample, c.center) }
}

/// Shading of a hit: each normal component mapped from `[-1, 1]` to
/// `[0, 1]`.
pub open spec fn spec_shade_hit(h: HitRecord) -> Color {
    Vector3D {
        x: quot(h.normal.x + SCALE, 2) as i64,
        y: quot(h.normal.y + SCALE, 2) as i64,
        z: quot(h.normal.z + SCALE, 2) as i64,
    }
}

/// Shading of a miss: white blended toward sky blue by the height of the
/// unit direction.
pub open spec fn spec_sky(d: Vector3D) -> Color {
    let u = vunit(d);
    let a = quot(u.y as int, 2) + SCALE;
    Vector3D {
        x: (SCALE - a + quot(a * 500, SCALE as int)) as i64,
        y: (SCALE - a + quot(a * 700, SCALE as int)) as i64,
        z: (SCALE - a + quot(a * 1000, SCALE as int)) as i64,
    }
}

/// The color a ray evaluates to against the world, searching the whole
/// forward parameter range.
pub open spec fn spec_ray_color(r: Ray, objs: Seq<Sphere>) -> Color {
    match list_hit_model(objs, r, Interval { min: 0, max: T_LIMIT }) {
        Some(h) => spec_shade_hit(h),
        None => spec_sky(r.direction),
    }
}

/// Sky channels stay between zero and one whole unit.
proof fn lemma_sky_bounds(d: Vector3D)
    requires
        !is_zero(d),
    ensures
        0 <= spec_sky(d).x <= SCALE,
        0 <= spec_sky(d).y <= SCALE,
        0 <= spec_sky(d).z <= SCALE,
{
    crate::vector3d::lemma_vunit_within(d);
    let u = vunit(d);
    lemma_quot_le_factor(u.y as int, 2, 500);
    let a = quot(u.y as int, 2) + SCALE;
    assert(500 <= a <= 1500);
    lemma_sky_channel(a, 500);
    lemma_sky_channel(a, 700);
    lemma_sky_channel(a, 1000);
}

/// One blended sky channel stays between zero and one whole unit.
proof fn lemma_sky_channel(a: int, chan: int)
    requires
        500 <= a <= 1500,
        500 <= chan <= 1000,
    ensures
        0 <= SCALE - a + quot(a * chan, SCALE as int) <= SCALE,
{
    assert(0 <= a * chan <= a * 1000) by (nonlinear_arith)
        requires
            0 <= a && 500 <= chan <= 1000,
    ;
    lemma_quot_le_factor(a * chan, SCALE as int, a);
    assert(a * 500 <= a * chan) by (nonlinear_arith)
        requires
            0 <= a && 500 <= chan,
    ;
    vstd::arithmetic::div_mod::lemma_div_is_ordered(a * 500, a * chan, SCALE as int);
    vstd::arithmetic::div_mod::lemma_fundamental_div_mod(a * 500, SCALE as int);
    assert(quot(a * chan, SCALE as int) >= (a * 500) / (SCALE as int));
    assert(500 * a == a * 500) by (nonlinear_arith);
    assert(1000 * ((a * 500) / 1000) == a * 500 - (a * 500) % 1000);
    assert((a * 500) % 1000 < 1000);
    assert((a * 500) / 1000 >= a - SCALE);
}

impl Camera {
    /// Creates a camera with default parameters: square aspect ratio, a
    /// hundred pixels of width, one sample per pixel.
    pub fn default() -> (r: Self)
        ensures
            camera_wf(r),
            r.aspect_ratio == SCALE,
            r.image_width == 100,
            r.samples_per_pixel == 1,
    {
        proof {
            vstd::arithmetic::div_mod::lemma_fundamental_div_mod_converse(201_000, 2_000, 100, 1_000);
            assert(spec_image_height(SCALE as int, 100) == 100);
        }
        Self::new(SCALE, 100, 1)
    }

    /// Creates a camera from the fixed-point aspect ratio, image width and
    /// sample count, and derives its viewport at once.
    pub fn new(aspect_ratio: i64, image_width: u16, samples_per_pixel: u16) -> (r: Self)
        requires
            aspect_ratio > 0,
            image_width >= 1,
            samples_per_pixel >= 1,
            spec_image_height(aspect_ratio as int, image_width as int) <= u16::MAX,
        ensures
            camera_wf(r),
            r.aspect_ratio == aspect_ratio,
            r.image_width == image_width,
            r.samples_per_pixel == samples_per_pixel,
    {
        let mut cam: Camera = Camera {
            aspect_ratio: aspect_ratio,
            image_width: image_width,
            samples_per_pixel: samples_per_pixel,
            image_height: 0,
            center: Point3D::new(),
            pixel00_loc: Point3D::new(),
            pixel_du: Vector3D::new(),
            pixel_dv: Vector3D::new(),
        };
        cam.initialize();
        cam
    }

    /// Derives image height, pixel steps and the top-left pixel position
    /// from the aspect ratio and image width.
    fn initialize(&mut self)
        requires
            old(self).aspect_ratio > 0,
            old(self).image_width >= 1,
            old(self).samples_per_pixel >= 1,
            spec_image_height(old(self).aspect_ratio as int, old(self).image_width as int)
                <= u16::MAX,
        ensures
            final(self).aspect_ratio == old(self).aspect_ratio,
            final(self).image_width == old(self).image_width,
            final(self).samples_per_pixel == old(self).samples_per_pixel,
            camera_wf(*final(self)),
    {
        proof {
            lemma_height_quotient_bounds(self.aspect_ratio as int, self.image_width as int);
        }
        let num: i128 = 2 * (self.image_width as i128) * (SCALE as i128) + (self.aspect_ratio
            as i128);
        let den: i128 = 2 * (self.aspect_ratio as i128);
        let mut h: i64 = (num / den) as i64;
        if h < 1 {
            h = 1;
        }
        self.image_height = h as u16;

        self.center = Point3D::new();

        let w64: i64 = self.image_width as i64;
        let h64: i64 = self.image_height as i64;
        proof {
            assert(0 <= 2 * (SCALE as int) * (w64 as int) <= 132_000_000) by (nonlinear_arith)
                requires
                    1 <= (w64 as int) < 65536 && SCALE == 1000,
            ;
            lemma_quot_abs_bound(2 * (SCALE as int) * (w64 as int), h64 as int, 132_000_000);
        }
        let vw: i64 = (2 * SCALE * w64) / h64;
        proof {
            lemma_quot_abs_bound(vw as int, w64 as int, 132_000_000);
            lemma_quot_abs_bound(2 * (SCALE as int), h64 as int, 2_000);
        }
        let dux: i64 = vw / w64;
        let dvy: i64 = -(2 * SCALE / h64);
        self.pixel_du = Vector3D { x: dux, y: 0, z: 0 };
        self.pixel_dv = Vector3D { x: 0, y: dvy, z: 0 };
        self.pixel00_loc = Vector3D {
            x: -(vw / 2) + dux / 2,
            y: SCALE + dvy / 2,
            z: -SCALE,
        };
    }

    /// Computes the color of a ray against the world geometry: the normal
    /// visualization on a hit, the sky gradient on a miss.  Every channel
    /// of the result lies between zero and one whole unit.
    pub fn ray_color(r: &Ray, world: &HittableList) -> (c: Color)
        requires
            world.scene_bounded(),
            ray_within_scene(*r),
            !is_zero(r.direction),
        ensures
            c == spec_ray_color(*r, members(*world)),
            0 <= c.x <= SCALE,
            0 <= c.y <= SCALE,
            0 <= c.z <= SCALE,
    {
        let mut rec = HitRecord::default();
        let forward = Interval::new(0, T_LIMIT);
        if world.hit(r, forward, &mut rec) {
            proof {
                lemma_list_hit_in_interval(
                    members(*world),
                    *r,
                    Interval { min: 0, max: T_LIMIT },
                );
            }
            return Color {
                x: (rec.normal.x + SCALE) / 2,
                y: (rec.normal.y + SCALE) / 2,
                z: (rec.normal.z + SCALE) / 2,
            };
        }
        proof {
            lemma_sky_bounds(r.direction);
        }
        let u = r.direction().unit_vector();
        let a: i64 = u.y / 2 + SCALE;
        Color {
            x: SCALE - a + (a * 500) / SCALE,
            y: SCALE - a + (a * 700) / SCALE,
            z: SCALE - a + (a * 1000) / SCALE,
        }
    }

    /// A random offset within half a pixel step in each viewport direction.
    pub fn pixel_sample_square(&self, rng: &mut rand::rngs::StdRng) -> (v: Vector3D)
        requires
            camera_wf(*self),
        ensures
            exists|jx: i64, jy: i64|
                -HALF_UNIT <= jx < HALF_UNIT && -HALF_UNIT <= jy < HALF_UNIT && v
                    == spec_sample_offset(*self, jx as int, jy as int),
            within(v, 70_000_000),
    {
        proof {
            lemma_camera_bounds(*self);
        }
        let px: i64 = rand_range(rng, -HALF_UNIT, HALF_UNIT);
        let py: i64 = rand_range(rng, -HALF_UNIT, HALF_UNIT);
        proof {
            lemma_jitter_scale(self.pixel_du.x as int, px as int);
            lemma_jitter_scale(self.pixel_dv.y as int, py as int);
        }
        let sx = self.pixel_du.mul_scalar(px);
        let sy = self.pixel_dv.mul_scalar(py);
        let v = sx.add(sy);
        proof {
            assert(v == spec_sample_offset(*self, px as int, py as int));
        }
        v
    }

    /// Gets a randomly sampled camera ray for the pixel at `(i, j)`.
    pub fn ray(&self, i: u16, j: u16, rng: &mut rand::rngs::StdRng) -> (r: Ray)
        requires
            camera_wf(*self),
            i < self.image_width,
            j < self.image_height,
        ensures
            exists|jx: i64, jy: i64|
                -HALF_UNIT <= jx < HALF_UNIT && -HALF_UNIT <= jy < HALF_UNIT && r
                    == spec_camera_ray(*self, i as int, j as int, jx as int, jy as int),
            ray_within_scene(r),
            r.direction.z == -SCALE,
    {
        proof {
            lemma_camera_bounds(*self);
            lemma_pixel_center_bounds(*self, i as int, j as int);
        }
        let pixel_center = Vector3D {
            x: self.pixel00_loc.x + (i as i64) * self.pixel_du.x + (j as i64) * self.pixel_dv.x,
            y: self.pixel00_loc.y + (i as i64) * self.pixel_du.y + (j as i64) * self.pixel_dv.y,
            z: self.pixel00_loc.z + (i as i64) * self.pixel_du.z + (j as i64) * self.pixel_dv.z,
        };
        let offset = self.pixel_sample_square(rng);
        let pixel_sample = pixel_center.add(offset);
        let direction = pixel_sample.sub(self.center);
        let r = Ray::create(self.center, direction);
        proof {
            let (jx, jy) = choose|jx: i64, jy: i64|
                -HALF_UNIT <= jx < HALF_UNIT && -HALF_UNIT <= jy < HALF_UNIT && offset
                    == spec_sample_offset(*self, jx as int, jy as int);
            assert(r == spec_camera_ray(*self, i as int, j as int, jx as int, jy as int));
        }
        r
    }
}

/// The P3 header: magic, image dimensions, maximum channel value.
pub open spec fn header_text(w: int, h: int) -> Seq<char> {
    seq!['P', '3', '\n'] + dec_digits(w) + seq![' '] + dec_digits(h) + seq!['\n'] + seq![
        '2',
        '5',
        '5',
        '\n',
    ]
}

/// One text line per pixel, in order.
pub open spec fn pixel_lines(pix: Seq<Color>, samples: int) -> Seq<char>
    decreases pix.len(),
{
    if pix.len() == 0 {
        Seq::empty()
    } else {
        pixel_lines(pix.drop_last(), samples) + color_line(pix.last(), samples)
    }
}

/// The color accumulated for one pixel over a sequence of jitter pairs.
pub open spec fn spec_accumulate(
    c: Camera,
    objs: Seq<Sphere>,
    i: int,
    j: int,
    js: Seq<(i64, i64)>,
) -> Color
    decreases js.len(),
{
    if js.len() == 0 {
        Vector3D { x: 0, y: 0, z: 0 }
    } else {
        let prev = spec_accumulate(c, objs, i, j, js.drop_last());
        let jit = js.last();
        vadd(prev, spec_ray_color(spec_camera_ray(c, i, j, jit.0 as int, jit.1 as int), objs))
    }
}

/// The color arose from one full round of jittered samples for the pixel.
pub open spec fn sampled_color(c: Camera, objs: Seq<Sphere>, i: int, j: int, col: Color) -> bool {
    exists|js: Seq<(i64, i64)>|
        {
            &&& js.len() == c.samples_per_pixel
            &&& (forall|k: int|
                0 <= k < js.len() ==> -HALF_UNIT <= (#[trigger] js[k]).0 < HALF_UNIT && -HALF_UNIT
                    <= js[k].1 < HALF_UNIT)
            &&& col == spec_accumulate(c, objs, i, j, js)
        }
}

impl Camera {
    /// Renders the scene against the world geometry into the text of a P3
    /// image: the header, then one line per pixel in row-major order, each
    /// the quantized accumulation of one round of jittered samples.
    pub fn render(&self, world: &HittableList, rng: &mut rand::rngs::StdRng) -> (out: String)
        requires
            camera_wf(*self),
            world.scene_bounded(),
        ensures
            exists|pix: Seq<Color>|
                {
                    &&& pix.len() == (self.image_height as int) * (self.image_width as int)
                    &&& (forall|k: int|
                        0 <= k < pix.len() ==> sampled_color(
                            *self,
                            members(*world),
                            k % (self.image_width as int),
                            k / (self.image_width as int),
                            #[trigger] pix[k],
                        ))
                    &&& out@ == header_text(self.image_width as int, self.image_height as int)
                        + pixel_lines(pix, self.samples_per_pixel as int)
                },
    {
        let w: u16 = self.image_width;
        let h: u16 = self.image_height;
        let samples: u16 = self.samples_per_pixel;
        let mut out = String::new();
        out.append("P3\n");
        push_decimal(&mut out, w as u32);
        out.append(" ");
        push_decimal(&mut out, h as u32);
        out.append("\n255\n");
        proof {
            reveal_strlit("P3\n");
            reveal_strlit(" ");
            reveal_strlit("\n255\n");
            assert(out@ =~= header_text(w as int, h as int));
        }
        let ghost mut pix: Seq<Color> = Seq::empty();
        let mut j: u16 = 0;
        while j < h
            invariant
                camera_wf(*self),
                world.scene_bounded(),
                w == self.image_width,
                h == self.image_height,
                samples == self.samples_per_pixel,
                j <= h,
                pix.len() == (j as int) * (w as int),
                forall|k: int|
                    0 <= k < pix.len() ==> sampled_color(
                        *self,
                        members(*world),
                        k % (w as int),
                        k / (w as int),
                        #[trigger] pix[k],
                    ),
                out@ == header_text(w as int, h as int) + pixel_lines(pix, samples as int),
            decreases h - j,
        {
            let mut i: u16 = 0;
            while i < w
                invariant
                    camera_wf(*self),
                    world.scene_bounded(),
                    w == self.image_width,
                    h == self.image_height,
                    samples == self.samples_per_pixel,
                    j < h,
                    i <= w,
                    pix.len() == (j as int) * (w as int) + i as int,
                    forall|k: int|
                        0 <= k < pix.len() ==> sampled_color(
                            *self,
                            members(*world),
                            k % (w as int),
                            k / (w as int),
                            #[trigger] pix[k],
                        ),
                    out@ == header_text(w as int, h as int) + pixel_lines(pix, samples as int),
                decreases w - i,
            {
                let mut pixel_color: Color = Color::new();
                let ghost mut js: Seq<(i64, i64)> = Seq::empty();
                let mut s: u16 = 0;
                while s < samples
                    invariant
                        camera_wf(*self),
                        world.scene_bounded(),
                        w == self.image_width,
                        h == self.image_height,
                        samples == self.samples_per_pixel,
                        i < w,
                        j < h,
                        s <= samples,
                        js.len() == s as int,
                        forall|k: int|
                            0 <= k < js.len() ==> -HALF_UNIT <= (#[trigger] js[k]).0 < HALF_UNIT
                                && -HALF_UNIT <= js[k].1 < HALF_UNIT,
                        pixel_color == spec_accumulate(
                            *self,
                            members(*world),
                            i as int,
                            j as int,
                            js,
                        ),
                        0 <= pixel_color.x <= (s as int) * (SCALE as int),
                        0 <= pixel_color.y <= (s as int) * (SCALE as int),
                        0 <= pixel_color.z <= (s as int) * (SCALE as int),
                    decreases samples - s,
                {
                    let r: Ray = self.ray(i, j, rng);
                    let sample: Color = Self::ray_color(&r, world);
                    proof {
                        assert((s as int) * (SCALE as int) + (SCALE as int) <= 66_000_000_000)
                            by (nonlinear_arith)
                            requires
                                0 <= s < 65536,
                        ;
                    }
                    let next: Color = pixel_color.add(sample);
                    proof {
                        let (jx, jy) = choose|jx: i64, jy: i64|
                            -HALF_UNIT <= jx < HALF_UNIT && -HALF_UNIT <= jy < HALF_UNIT && r
                                == spec_camera_ray(*self, i as int, j as int, jx as int, jy as int);
                        let prev_js = js;
                        js = js.push((jx, jy));
                        assert(js.drop_last() =~= prev_js);
                        assert(js.last() == (jx, jy));
                        assert(next == spec_accumulate(
                            *self,
                            members(*world),
                            i as int,
                            j as int,
                            js,
                        ));
                    }
                    pixel_color = next;
                    s = s + 1;
                }
                pixel_color.write(&mut out, samples);
                proof {
                    let prev_pix = pix;
                    pix = pix.push(pixel_color);
                    assert(pix.drop_last() =~= prev_pix);
                    assert(pix.last() == pixel_color);
                    let wi = w as int;
                    let k = (j as int) * wi + (i as int);
                    vstd::arithmetic::div_mod::lemma_fundamental_div_mod_converse(
                        k,
                        wi,
                        j as int,
                        i as int,
                    );
                    assert(sampled_color(
                        *self,
                        members(*world),
                        k % wi,
                        k / wi,
                        pixel_color,
                    ));
                    assert(out@ =~= header_text(w as int, h as int) + pixel_lines(
                        pix,
                        samples as int,
                    ));
                }
                i = i + 1;
            }
            proof {
                assert((j as int) * (w as int) + (w as int) == (j as int + 1) * (w as int))
                    by (nonlinear_arith);
            }
            j = j + 1;
        }
        out
    }
}

/// Scaling a pixel step by a jitter below one half unit keeps it small.
proof fn lemma_jitter_scale(step: int, jitter: int)
    requires
        -132_000_000 <= step <= 132_000_000,
        -500 <= jitter <= 500,
    ensures
        -66_000_001 <= mul_fix(jitter, step) <= 66_000_001,
{
    lemma_mul_abs_bound(jitter, step, 500, 132_000_000);
    lemma_quot_le_factor(jitter * step, SCALE as int, 66_000_001);
}

/// Pixel centers stay within a small box around the viewport.
proof fn lemma_pixel_center_bounds(c: Camera, i: int, j: int)
    requires
        camera_wf(c),
        0 <= i < c.image_width,
        0 <= j < c.image_height,
    ensures
        -132_000_000 <= c.pixel00_loc.x + i * c.pixel_du.x + j * c.pixel_dv.x <= 132_000_000,
        -134_000_000 <= c.pixel00_loc.y + i * c.pixel_du.y + j * c.pixel_dv.y <= 134_000_000,
        c.pixel00_loc.z + i * c.pixel_du.z + j * c.pixel_dv.z == -1_000,
{
    lemma_camera_bounds(c);
    let w = c.image_width as int;
    assert(0 <= i * c.pixel_du.x <= w * c.pixel_du.x) by (nonlinear_arith)
        requires
            0 <= i <= w && 0 <= c.pixel_du.x,
    ;
    lemma_mul_abs_bound(j, c.pixel_dv.y as int, 65_535, 2_000);
    assert(i * c.pixel_du.y == 0 && i * c.pixel_du.z == 0) by (nonlinear_arith)
        requires
            c.pixel_du.y == 0 && c.pixel_du.z == 0,
    ;
    assert(j * c.pixel_dv.x == 0 && j * c.pixel_dv.z == 0) by (nonlinear_arith)
        requires
            c.pixel_dv.x == 0 && c.pixel_dv.z == 0,
    ;
}

} // verus!
