use std::rc::Rc;

use raytracer::hittable::hittables::HittableList;
use raytracer::hittable::sphere::Sphere;
use raytracer::hittable::{HitRecord, Hittable};
use raytracer::interval::Interval;
use raytracer::ray::Ray;
use raytracer::vector3d::{Point3D, Vector3D};

#[test]
fn linear_interpolation() {
    let p_orig: Point3D = Point3D::new();
    let v_zero: Vector3D = Vector3D::new();
    let v_one: Vector3D = Vector3D::with_values(1000, 1000, 1000);

    let r_zero: Ray = Ray::create(p_orig, v_zero);
    let r_one: Ray = Ray::create(p_orig, v_one);
    let r_oone: Ray = Ray::create(v_one, v_one);

    assert_eq!(
        r_zero.at(-1000),
        p_orig,
        "Ray (<0,0,0>, <0,0,0>) at t=-1.0 not at <0,0,0>"
    );
    assert_eq!(
        r_zero.at(0),
        p_orig,
        "Ray (<0,0,0>, <0,0,0>) at t=0.0 not at <0,0,0>"
    );
    assert_eq!(
        r_zero.at(1000),
        p_orig,
        "Ray (<0,0,0>, <0,0,0>) at t=1.0 not at <0,0,0>"
    );

    assert_eq!(
        r_one.at(-1000),
        v_one.neg(),
        "Ray (<0,0,0>, <1,1,1>) at t=-1.0 not at <-1,-1,-1>"
    );
    assert_eq!(
        r_one.at(0),
        p_orig,
        "Ray (<0,0,0>, <1,1,1>) at t=0.0 not at <0,0,0>"
    );
    assert_eq!(
        r_one.at(1000),
        v_one,
        "Ray (<0,0,0>, <1,1,1>) at t=1.0 not at <1,1,1>"
    );

    assert_eq!(
        r_oone.at(-1000),
        p_orig,
        "Ray (<1,1,1>, <1,1,1>) at t=-1.0 not at <0,0,0>"
    );
    assert_eq!(
        r_oone.at(0),
        v_one,
        "Ray (<1,1,1>, <1,1,1>) at t=-1.0 not at <1,1,1>"
    );
    assert_eq!(
        r_oone.at(1000),
        v_one.mul_scalar(2000),
        "Ray (<1,1,1>, <1,1,1>) at t=-1.0 not at <2,2,2>"
    );
}

#[test]
fn sphere_new() {
    let p: Point3D = Point3D::with_values(1000, 1000, 1000);
    let sphere: Sphere = Sphere::new(p, 1000);

    assert_eq!(
        Sphere::new(Point3D::with_values(0, 0, 0), 0),
        Sphere::default(),
        "Sphere at origin, with radius 0 not the default sphere"
    );
    assert_eq!(sphere.center(), p, "Sphere center not point p");
    assert_eq!(sphere.radius(), 1000, "Sphere radius not 1.0");
}

#[test]
fn sphere_hit_outside() {
    let ray: Ray = Ray::create(Point3D::new(), Vector3D::with_values(1000, 0, 0));
    let sphere: Sphere = Sphere::new(Point3D::with_values(2000, 0, 0), 1000);
    let ray_t: Interval = Interval::new(500, 1500);
    let rec: &mut HitRecord = &mut HitRecord::default();

    assert!(sphere.hit(&ray, ray_t, rec), "Test sphere not hit by ray");
    assert_eq!(
        *rec,
        HitRecord::new(
            Point3D::with_values(1000, 0, 0),
            Vector3D::with_values(-1000, 0, 0),
            1000,
            true
        ),
        "Hit Record not as expected"
    );
}

#[test]
fn sphere_hit_inside() {
    let ray: Ray = Ray::create(Point3D::new(), Vector3D::with_values(1000, 0, 0));
    let sphere: Sphere = Sphere::new(Point3D::with_values(2000, 0, 0), 1000);
    let ray_t: Interval = Interval::new(2500, 3500);
    let rec: &mut HitRecord = &mut HitRecord::default();

    assert!(sphere.hit(&ray, ray_t, rec), "Test sphere not hit by ray");
    assert_eq!(
        *rec,
        HitRecord::new(
            Point3D::with_values(3000, 0, 0),
            Vector3D::with_values(-1000, 0, 0),
            3000,
            false
        ),
        "Hit Record not as expected"
    );
}

#[test]
fn sphere_not_hit() {
    let ray: Ray = Ray::create(Point3D::new(), Vector3D::with_values(-1000, 0, 0));
    let sphere: Sphere = Sphere::new(Point3D::with_values(2000, 0, 0), 1000);
    let ray_t: Interval = Interval::new(2500, 3500);
    let rec: &mut HitRecord = &mut HitRecord::default();

    assert!(!sphere.hit(&ray, ray_t, rec), "Test sphere hit by ray");
    assert_eq!(*rec, HitRecord::default(), "Hit Record not as expected");
}

#[test]
fn degenerate_sphere_never_hit() {
    let ray: Ray = Ray::create(Point3D::new(), Vector3D::with_values(1000, 0, 0));
    let sphere: Sphere = Sphere::new(Point3D::with_values(2000, 0, 0), 0);
    let rec: &mut HitRecord = &mut HitRecord::default();

    assert!(!sphere.hit(&ray, Interval::new(0, 10_000), rec));
    assert_eq!(*rec, HitRecord::default());
}

#[test]
fn list_creation() {
    let mut hittables: HittableList = HittableList::new();

    assert!(hittables.is_empty(), "New HittableList not empty");

    for i in 1..4 {
        hittables.push(Rc::new(Sphere::default()));
        assert_eq!(hittables.len(), i);
    }
}

#[test]
fn list_hit() {
    let mut hittables: HittableList = HittableList::new();

    let ray: Ray = Ray::create(Point3D::new(), Vector3D::with_values(1000, 0, 0));
    let sphere: Sphere = Sphere::new(Point3D::with_values(2000, 0, 0), 1000);
    let ray_t: Interval = Interval::new(500, 1500);
    let rec: &mut HitRecord = &mut HitRecord::default();

    hittables.push(Rc::new(sphere));

    assert!(hittables.hit(&ray, ray_t, rec), "Sphere in List not hit");
    assert_eq!(
        *rec,
        HitRecord::new(
            Point3D::with_values(1000, 0, 0),
            Vector3D::with_values(-1000, 0, 0),
            1000,
            true
        ),
        "Hit Record not as expected"
    );
}

#[test]
fn list_reports_nearest_of_overlapping_spheres() {
    // Two overlapping spheres along one ray: the list must report the
    // smaller valid parameter, whichever insertion order is used.
    let ray: Ray = Ray::create(Point3D::new(), Vector3D::with_values(1000, 0, 0));
    let near: Sphere = Sphere::new(Point3D::with_values(2000, 0, 0), 1000);
    let far: Sphere = Sphere::new(Point3D::with_values(2500, 0, 0), 1000);
    let ray_t: Interval = Interval::new(500, 10_000);

    let mut world_a: HittableList = HittableList::new();
    world_a.push(Rc::new(near));
    world_a.push(Rc::new(far));
    let rec_a: &mut HitRecord = &mut HitRecord::default();
    assert!(world_a.hit(&ray, ray_t, rec_a));
    assert_eq!(rec_a.t(), 1000);
    assert_eq!(rec_a.p(), Point3D::with_values(1000, 0, 0));

    let mut world_b: HittableList = HittableList::new();
    world_b.push(Rc::new(far));
    world_b.push(Rc::new(near));
    let rec_b: &mut HitRecord = &mut HitRecord::default();
    assert!(world_b.hit(&ray, ray_t, rec_b));
    assert_eq!(*rec_b, *rec_a);

    // A list of one behaves as the sphere alone.
    let mut world_c: HittableList = HittableList::new();
    world_c.push(Rc::new(near));
    let rec_c: &mut HitRecord = &mut HitRecord::default();
    let rec_d: &mut HitRecord = &mut HitRecord::default();
    assert_eq!(world_c.hit(&ray, ray_t, rec_c), near.hit(&ray, ray_t, rec_d));
    assert_eq!(*rec_c, *rec_d);
}

#[test]
fn empty_list_never_hits() {
    let hittables: HittableList = HittableList::new();
    let ray: Ray = Ray::create(Point3D::new(), Vector3D::with_values(1000, 0, 0));
    let rec: &mut HitRecord = &mut HitRecord::default();
    assert!(!hittables.hit(&ray, Interval::new(0, 10_000), rec));
    assert_eq!(*rec, HitRecord::default());
}

#[test]
fn interval_semantics() {
    let iv = Interval::new(500, 1500);
    assert!(iv.contains(500));
    assert!(!iv.surrounds(500));
    assert_eq!(iv.clamp(2000), 1500);
    assert_eq!(iv.clamp(-1000), 500);
}

#[test]
fn empty_interval_contains_nothing() {
    let iv = Interval::new_empty();
    assert!(!iv.contains(0));
    assert!(!iv.surrounds(0));
}

#[test]
fn universe_interval_contains_everything_admissible() {
    let iv = Interval::universe();
    assert!(iv.contains(0));
    assert!(iv.surrounds(1_000_000));
    assert!(iv.surrounds(-1_000_000));
}
