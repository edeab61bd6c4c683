use raytracer::interval::Interval;
use raytracer::vector3d::Vector3D;
use rand::SeedableRng;

fn v123() -> Vector3D {
    Vector3D::with_values(1000, 2000, 3000)
}

fn v_one() -> Vector3D {
    Vector3D::with_values(1000, 1000, 1000)
}

fn v_two() -> Vector3D {
    Vector3D::with_values(2000, 2000, 2000)
}

fn v_rnd() -> Vector3D {
    Vector3D::with_values(1000, -2000, 3000)
}

fn v_x() -> Vector3D {
    Vector3D::with_values(1000, 0, 0)
}

fn v_y() -> Vector3D {
    Vector3D::with_values(0, 1000, 0)
}

fn v_z() -> Vector3D {
    Vector3D::with_values(0, 0, 1000)
}

#[test]
fn negation() {
    assert_eq!(v123().neg(), Vector3D::with_values(-1000, -2000, -3000));
    assert_eq!(v_one().neg(), Vector3D::with_values(-1000, -1000, -1000));
    assert_eq!(v_rnd().neg(), Vector3D::with_values(-1000, 2000, -3000));
}

#[test]
fn add_assign() {
    let mut v = Vector3D::new();
    v.add_assign(v_x());
    v.add_assign(v_y());
    v.add_assign(v_z());
    assert_eq!(v, v_one());
}

#[test]
fn add() {
    assert_eq!(v_x().add(v_y()).add(v_z()), v_one());
    assert_eq!(
        v_x().add(v_y().mul_scalar(2000)).add(v_z().mul_scalar(3000)),
        v123()
    );
}

#[test]
fn sub() {
    assert_eq!(v_one().sub(v_x()).sub(v_y()).sub(v_z()), Vector3D::new());
}

#[test]
fn mul_assign() {
    let mut v = v_one();
    v.mul_assign(2000);
    assert_eq!(v, v_two());
}

#[test]
fn mul() {
    // v * v'
    assert_eq!(v123().mul(v_one()), v123());

    // v * t
    assert_eq!(v_one().mul_scalar(2000), v_two());

    // t * v
    assert_eq!(v_one().mul_scalar(2000), v_two());
}

#[test]
fn div_assign() {
    let mut v = v_two();
    v.div_assign(2000);
    assert_eq!(v, v_one());
}

#[test]
fn div() {
    assert_eq!(v_two().div_scalar(2000), v_one());
}

#[test]
fn length() {
    assert_eq!(v_x().length(), 1000);
    assert_eq!(v_y().length(), 1000);
    assert_eq!(v_z().length(), 1000);
}

#[test]
fn dot_product() {
    assert_eq!(v123().dot(v_rnd()), 6000);
    assert_eq!(v_two().dot(v_two()), 12000);
}

#[test]
fn cross_product() {
    assert_eq!(v_one().cross(v_one()), Vector3D::new());
}

#[test]
fn random_different_components() {
    let mut rng = rand::rngs::StdRng::seed_from_u64(12345);
    let r = Vector3D::random(&mut rng);
    let rw = Vector3D::random_within(&mut rng, 0, 100_000);
    let ruv = Vector3D::random_unit_vector(&mut rng);
    let roh = Vector3D::random_on_hemisphere(&mut rng, Vector3D::with_values(0, 1000, 0));
    let rius = Vector3D::random_in_unit_sphere(&mut rng);

    assert!(
        r.x() != r.y() || r.x() != r.z() || r.y() != r.z(),
        "random() - The components should differ!"
    );

    assert!(
        rw.x() != rw.y() || rw.x() != rw.z() || rw.y() != rw.z(),
        "random_within() - The components should differ!"
    );

    assert!(
        ruv.x() != ruv.y() || ruv.x() != ruv.z() || ruv.y() != ruv.z(),
        "random_unit_vector() - The components should differ!"
    );

    assert!(
        roh.x() != roh.y() || roh.x() != roh.z() || roh.y() != roh.z(),
        "random_on_hemisphere() - The components should differ!"
    );

    assert!(
        rius.x() != rius.y() || rius.x() != rius.z() || rius.y() != rius.z(),
        "random_in_unit_sphere() - The components should differ!"
    );
}

#[test]
fn random_constraints() {
    let mut rng = rand::rngs::StdRng::seed_from_u64(12345);
    let r = Vector3D::random(&mut rng);
    let rw = Vector3D::random_within(&mut rng, 0, 100_000);
    let ruv = Vector3D::random_unit_vector(&mut rng);
    let rius = Vector3D::random_in_unit_sphere(&mut rng);
    let v = Vector3D::with_values(1000, 1000, 1000);
    let roh = Vector3D::random_on_hemisphere(&mut rng, v);

    assert!(
        (0 <= r.x() && r.x() < 1000) && (0 <= r.y() && r.y() < 1000)
            && (0 <= r.z() && r.z() < 1000),
        "random() - components not between [0, 1)!"
    );

    assert!(
        (0 <= rw.x() && rw.x() < 100_000) && (0 <= rw.y() && rw.y() < 100_000)
            && (0 <= rw.z() && rw.z() < 100_000),
        "random_within() - components not between [0, 100)!"
    );

    assert!(
        Interval::new(996, 1010).contains(ruv.length()),
        "random_unit_vector() - {} Not a unit vector!",
        ruv.length()
    );

    assert!(
        (-1000 <= rius.x() && rius.x() < 1000) && (-1000 <= rius.y() && rius.y() < 1000)
            && (-1000 <= rius.z() && rius.z() < 1000),
        "random_in_unit_sphere() - components not between [-1, 1)!"
    );

    assert!(
        rius.length_squared() < 1000,
        "random_in_unit_sphere() - not in unit_sphere!"
    );

    assert!(
        roh.dot(v) > 0,
        "random_on_hemisphere() - not in correct hemisphere"
    );
}

#[test]
fn random_range_is_exact_when_narrow() {
    let mut rng = rand::rngs::StdRng::seed_from_u64(7);
    let w = Vector3D::random_within(&mut rng, 5, 6);
    assert_eq!(w, Vector3D::with_values(5, 5, 5));
}
