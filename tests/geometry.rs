use raytracer::{
    fx_div, fx_mul, fx_sqrt, Camera, Intersectable, Material, Ray, Sphere, Vector2, Vector3,
    MAX_RAW, ONE,
};

fn v3(x: i64, y: i64, z: i64) -> Vector3 {
    Vector3 { x, y, z }
}

fn plain_material() -> Material {
    Material { diffuse_color: v3(ONE / 2, ONE / 2, ONE / 2), emissive_color: Vector3::zero(), smoothness: 0 }
}

fn unit_sphere() -> Sphere {
    Sphere { position: Vector3::zero(), radius: ONE, material: plain_material() }
}

#[test]
fn normalized_zero_vector_is_zero() {
    assert_eq!(Vector3::zero().normalized(), Vector3::zero());
    assert_eq!(Vector2::zero().normalized(), Vector2::zero());
}

#[test]
fn normalized_has_unit_length() {
    let n = v3(3 * ONE, 4 * ONE, 0).normalized();
    assert_eq!(n, v3(600_000, 800_000, 0));
    assert_eq!(n.length(), ONE);
    let m = Vector2 { x: 0, y: -7 * ONE }.normalized();
    assert_eq!(m, Vector2 { x: 0, y: -ONE });
    assert_eq!(m.length(), ONE);
    for v in [v3(1_234_567, -2_345_678, 345_678), v3(-ONE / 3, ONE / 7, 5 * ONE)] {
        let len = v.normalized().length();
        assert!((len - ONE).abs() <= 10, "length {}", len);
    }
}

#[test]
fn dot_is_symmetric_and_gives_length_sqr() {
    let a = v3(ONE, 2 * ONE, 3 * ONE);
    let b = v3(-4 * ONE, ONE / 2, 2 * ONE);
    assert_eq!(a.dot(b), b.dot(a));
    assert_eq!(a.dot(b), -4 * ONE + ONE + 6 * ONE);
    assert_eq!(a.length_sqr(), a.dot(a));
    assert_eq!(a.length_sqr(), 14 * ONE);
    let c = Vector2 { x: 3 * ONE, y: -ONE };
    let d = Vector2 { x: ONE / 2, y: 2 * ONE };
    assert_eq!(c.dot(d), d.dot(c));
    assert_eq!(c.length_sqr(), 10 * ONE);
}

#[test]
fn vector_arithmetic_is_componentwise() {
    let a = v3(ONE, 2 * ONE, 3 * ONE);
    let b = v3(ONE / 2, -ONE, 4 * ONE);
    assert_eq!(a.add(b), v3(3 * ONE / 2, ONE, 7 * ONE));
    assert_eq!(a.sub(b), v3(ONE / 2, 3 * ONE, -ONE));
    assert_eq!(a.mul(b), v3(ONE / 2, -2 * ONE, 12 * ONE));
    assert_eq!(a.div(b), v3(2 * ONE, -2 * ONE, 3 * ONE / 4));
    assert_eq!(a.neg(), v3(-ONE, -2 * ONE, -3 * ONE));
    let mut c = a;
    c.add_assign(b);
    c.sub_assign(b);
    assert_eq!(c, a);
    c.mul_assign(Vector3::from(2 * ONE));
    assert_eq!(c, v3(2 * ONE, 4 * ONE, 6 * ONE));
    c.div_assign(Vector3::from(2 * ONE));
    assert_eq!(c, a);
    assert_eq!(Vector3::one(), v3(ONE, ONE, ONE));
    assert_eq!(Vector3::default(), Vector3::zero());
    assert_eq!(Vector2::one().add(Vector2::from(ONE)), Vector2 { x: 2 * ONE, y: 2 * ONE });
}

#[test]
fn lerp_and_reflect_exact_values() {
    let a = v3(0, 0, 0);
    let b = v3(2 * ONE, 4 * ONE, -2 * ONE);
    assert_eq!(a.lerp(b, ONE / 2), v3(ONE, 2 * ONE, -ONE));
    assert_eq!(a.lerp(b, 2 * ONE), v3(4 * ONE, 8 * ONE, -4 * ONE));
    let v = v3(ONE, -ONE, 0);
    let n = v3(0, ONE, 0);
    assert_eq!(v.reflect(n), v3(ONE, ONE, 0));
}

#[test]
fn scalar_edges() {
    assert_eq!(fx_div(5 * ONE, 0), 0);
    assert_eq!(fx_mul(MAX_RAW, 2 * ONE), MAX_RAW);
    assert_eq!(fx_mul(-MAX_RAW, 2 * ONE), -MAX_RAW);
    assert_eq!(fx_mul(-3 * ONE / 2, ONE / 2), -3 * ONE / 4);
    assert_eq!(fx_sqrt(4 * ONE), 2 * ONE);
    assert_eq!(fx_sqrt(2 * ONE), 1_414_213);
    assert_eq!(fx_sqrt(-ONE), 0);
}

#[test]
fn sphere_hit_from_outside() {
    let ray = Ray { origin: v3(0, 0, -3 * ONE), direction: v3(0, 0, ONE) };
    let hit = unit_sphere().intersect(&ray).expect("the ray points at the sphere");
    assert_eq!(hit.distance, 2 * ONE);
    assert_eq!(hit.position, v3(0, 0, -ONE));
    assert_eq!(hit.normal, v3(0, 0, -ONE));
    assert_eq!(hit.material, plain_material());
}

#[test]
fn sphere_hit_from_inside() {
    let ray = Ray { origin: Vector3::zero(), direction: v3(0, 0, ONE) };
    let hit = unit_sphere().intersect(&ray).expect("the origin is inside");
    assert_eq!(hit.distance, ONE);
    assert_eq!(hit.position, v3(0, 0, ONE));
    assert_eq!(hit.normal, v3(0, 0, -ONE));
}

#[test]
fn sphere_missed() {
    let ray = Ray { origin: v3(0, 3 * ONE, -3 * ONE), direction: v3(0, 0, ONE) };
    assert_eq!(unit_sphere().intersect(&ray), None);
}

#[test]
fn camera_centre_ray_is_forward() {
    let camera = Camera {
        position: v3(0, ONE, -3 * ONE),
        forward: v3(0, 0, ONE),
        right: v3(ONE, 0, 0),
        up: v3(0, ONE, 0),
        aspect: 1_500_000,
    };
    let ray = camera.get_ray(0, 0);
    assert_eq!(ray.direction, v3(0, 0, ONE));
    assert_eq!(ray.origin, v3(0, ONE, -3 * ONE));
    let corner = camera.get_ray(ONE, -ONE);
    assert_eq!(corner.direction, v3(1_500_000, -ONE, ONE));
}

#[test]
fn records_default_to_zero() {
    assert_eq!(Ray::default(), Ray { origin: Vector3::zero(), direction: Vector3::zero() });
    assert_eq!(Material::default().smoothness, 0);
    assert_eq!(raytracer::RayHit::default().distance, 0);
}
