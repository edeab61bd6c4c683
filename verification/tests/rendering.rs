use std::rc::Rc;

use raytracer::camera::Camera;
use raytracer::color::Color;
use raytracer::hittable::hittables::HittableList;
use raytracer::hittable::sphere::Sphere;
use raytracer::vector3d::Point3D;
use rand::SeedableRng;

#[test]
fn gamma_clamp_round_trip() {
    // An accumulated channel of exactly 1.0 with one sample maps to 255;
    // 0.0 maps to 0.
    let mut line = String::new();
    Color::with_values(1000, 1000, 1000).write(&mut line, 1);
    assert_eq!(line, "255 255 255\n");

    let mut zero_line = String::new();
    Color::with_values(0, 0, 0).write(&mut zero_line, 1);
    assert_eq!(zero_line, "0 0 0\n");
}

#[test]
fn quarter_intensity_gamma() {
    // 0.25 averages to itself, gamma-corrects to 0.5, and quantizes to 127.
    let mut line = String::new();
    Color::with_values(250, 250, 250).write(&mut line, 1);
    assert_eq!(line, "127 127 127\n");
}

#[test]
fn accumulated_samples_are_averaged() {
    // Four samples summing to 4.0 per channel average back to 1.0.
    let mut line = String::new();
    Color::with_values(4000, 4000, 4000).write(&mut line, 4);
    assert_eq!(line, "255 255 255\n");
}

#[test]
fn default_camera_dimensions() {
    let cam = Camera::default();
    assert_eq!(cam.image_width, 100);
    assert_eq!(cam.image_height, 100);
    assert_eq!(cam.samples_per_pixel, 1);
}

#[test]
fn image_height_rounds_to_nearest() {
    // 400 / 1.778 is just below 225 and must round up to it.
    let cam = Camera::new(1778, 400, 1);
    assert_eq!(cam.image_height, 225);

    // An exact half rounds up: 3 / 2.0 = 1.5.
    let cam2 = Camera::new(2000, 3, 1);
    assert_eq!(cam2.image_height, 2);
}

#[test]
fn wide_camera_derives_height_from_aspect() {
    // A 2:1 aspect ratio halves the height.
    let cam = Camera::new(2000, 200, 1);
    assert_eq!(cam.image_height, 100);

    // A very tall aspect ratio still yields at least one row.
    let tall = Camera::new(1_000_000_000, 10, 1);
    assert_eq!(tall.image_height, 1);
}

#[test]
fn unit_camera_viewport_geometry() {
    // For a square one-pixel camera the viewport is two units wide and
    // tall, so the single pixel step spans it and the first pixel center
    // sits straight ahead at the focal plane.
    let cam = Camera::new(1000, 1, 1);
    assert_eq!(cam.image_height, 1);
    assert_eq!(cam.pixel_du, raytracer::vector3d::Vector3D::with_values(2000, 0, 0));
    assert_eq!(cam.pixel_dv, raytracer::vector3d::Vector3D::with_values(0, -2000, 0));
    assert_eq!(cam.pixel00_loc, Point3D::with_values(0, 0, -1000));
    assert_eq!(cam.center, Point3D::with_values(0, 0, 0));
}

#[test]
fn render_produces_well_formed_ppm() {
    let mut world = HittableList::new();
    world.push(Rc::new(Sphere::new(Point3D::with_values(0, 0, -1000), 500)));

    let cam = Camera::new(1000, 2, 2);
    let mut rng = rand::rngs::StdRng::seed_from_u64(1);
    let image = cam.render(&world, &mut rng);

    let lines: Vec<&str> = image.lines().collect();
    assert_eq!(lines[0], "P3");
    assert_eq!(lines[1], "2 2");
    assert_eq!(lines[2], "255");
    assert_eq!(lines.len(), 3 + 4);
    for pixel in &lines[3..] {
        let channels: Vec<&str> = pixel.split(' ').collect();
        assert_eq!(channels.len(), 3);
        for ch in channels {
            let value: u32 = ch.parse().unwrap();
            assert!(value <= 255);
        }
    }
}

#[test]
fn seeded_renders_are_identical() {
    // With a seeded generator, repeated renders of the same scene and
    // camera produce byte-identical output.
    let mut world = HittableList::new();
    world.push(Rc::new(Sphere::new(Point3D::with_values(0, 0, -1000), 500)));
    world.push(Rc::new(Sphere::new(
        Point3D::with_values(0, -100_500, -1000),
        100_000,
    )));

    let cam = Camera::new(1778, 40, 4);

    let mut rng_a = rand::rngs::StdRng::seed_from_u64(42);
    let image_a = cam.render(&world, &mut rng_a);

    let mut rng_b = rand::rngs::StdRng::seed_from_u64(42);
    let image_b = cam.render(&world, &mut rng_b);

    assert_eq!(image_a, image_b);
}

#[test]
fn hit_and_miss_shade_differently() {
    // The same one-pixel camera renders a sphere-filled scene and an empty
    // one: the first shades the surface normal, the second the sky.
    let mut world = HittableList::new();
    let empty_world = HittableList::new();

    world.push(Rc::new(Sphere::new(Point3D::with_values(0, 0, -1000), 900)));

    let cam = Camera::new(1000, 1, 1);
    let mut rng = rand::rngs::StdRng::seed_from_u64(5);
    let hit_image = cam.render(&world, &mut rng);

    let mut rng_sky = rand::rngs::StdRng::seed_from_u64(5);
    let sky_image = cam.render(&empty_world, &mut rng_sky);

    assert_ne!(hit_image, sky_image);
    assert!(hit_image.starts_with("P3\n1 1\n255\n"));
    assert!(sky_image.starts_with("P3\n1 1\n255\n"));
}
