use raytracer::{
    get_nearest_hit, get_object, march_ray, rand_in_hemisphere, sky_color, trace_ray, And, Cutout,
    Material, Ray, SdfShape, Sphere, Vector3, ONE, SDF,
};

fn v3(x: i64, y: i64, z: i64) -> Vector3 {
    Vector3 { x, y, z }
}

fn material(r: i64) -> Material {
    Material { diffuse_color: v3(r, r, r), emissive_color: Vector3::zero(), smoothness: 0 }
}

fn sphere(position: Vector3, radius: i64, m: Material) -> Sphere {
    Sphere { position, radius, material: m }
}

fn lamp() -> Material {
    Material { diffuse_color: Vector3::zero(), emissive_color: v3(ONE, ONE / 2, 0), smoothness: 0 }
}

#[test]
fn and_takes_larger_distance_and_first_material() {
    let a = sphere(Vector3::zero(), ONE, material(100));
    let b = sphere(v3(3 * ONE, 0, 0), ONE, material(200));
    let both = And { a: Box::new(SdfShape::Sphere(a)), b: Box::new(SdfShape::Sphere(b)) };
    let (d, m) = both.get_sdf(v3(0, 0, 0));
    assert_eq!(d, 2 * ONE);
    assert_eq!(m, material(100));
    let (d, m) = both.get_sdf(v3(3 * ONE, 0, 0));
    assert_eq!(d, 2 * ONE);
    assert_eq!(m, material(100));
}

#[test]
fn cutout_inside_both_is_outside() {
    let object = sphere(Vector3::zero(), 2 * ONE, material(100));
    let hole = sphere(v3(ONE, 0, 0), 2 * ONE, material(200));
    let carved = Cutout { object: Box::new(SdfShape::Sphere(object)), cutout: Box::new(SdfShape::Sphere(hole)) };
    let (d, m) = carved.get_sdf(v3(ONE, 0, 0));
    assert_eq!(d, 2 * ONE);
    assert_eq!(m, material(100));
    let nested = SdfShape::Cutout(carved);
    assert_eq!(nested.get_sdf(v3(ONE, 0, 0)).0, 2 * ONE);
}

#[test]
fn nearest_hit_takes_closest_in_front() {
    let near = sphere(v3(0, 0, 5 * ONE), ONE, material(1));
    let far = sphere(v3(0, 0, 10 * ONE), ONE, material(2));
    let behind = sphere(v3(0, 0, -5 * ONE), ONE, material(3));
    let ray = Ray { origin: Vector3::zero(), direction: v3(0, 0, ONE) };
    let hit = get_nearest_hit(&ray, &[far, behind, near]).expect("two spheres are ahead");
    assert_eq!(hit.distance, 4 * ONE);
    assert_eq!(hit.material, material(1));
    assert_eq!(get_nearest_hit(&ray, &[behind]), None);
    assert_eq!(get_nearest_hit::<Sphere>(&ray, &[]), None);
}

#[test]
fn nearest_field_by_magnitude() {
    let inside = sphere(Vector3::zero(), 3 * ONE, material(1));
    let close = sphere(v3(4 * ONE, 0, 0), ONE, material(2));
    // distance -3 to the first, 3 to the second: equal magnitudes keep the first
    let (d, m) = get_object(Vector3::zero(), &[inside, close]).unwrap();
    assert_eq!((d, m), (-3 * ONE, material(1)));
    let (d, m) = get_object(v3(ONE, 0, 0), &[inside, close]).unwrap();
    assert_eq!((d, m), (-2 * ONE, material(1)));
    let farther = sphere(v3(5 * ONE, 0, 0), ONE, material(3));
    let (d, m) = get_object(v3(3_800_000, 0, 0), &[inside, farther]).unwrap();
    assert_eq!((d, m), (200_000, material(3)));
    assert_eq!(get_object::<Sphere>(Vector3::zero(), &[]), None);
}

#[test]
fn zero_depth_gives_black() {
    let mut rng = rand::thread_rng();
    let ray = Ray { origin: Vector3::zero(), direction: v3(0, ONE, 0) };
    let spheres = [sphere(v3(0, 2 * ONE, 0), ONE, lamp())];
    assert_eq!(trace_ray(ray, &spheres, &mut rng, 0), Vector3::zero());
    assert_eq!(march_ray(ray, &spheres, &mut rng, 0), Vector3::zero());
}

#[test]
fn empty_scene_gives_sky() {
    let mut rng = rand::thread_rng();
    let up = Ray { origin: Vector3::zero(), direction: v3(0, ONE, 0) };
    let down = Ray { origin: Vector3::zero(), direction: v3(0, -ONE, 0) };
    let none: [Sphere; 0] = [];
    assert_eq!(trace_ray(up, &none, &mut rng, 4), v3(400_000, 600_000, 800_000));
    assert_eq!(trace_ray(down, &none, &mut rng, 4), v3(ONE, ONE, ONE));
    assert_eq!(march_ray(up, &none, &mut rng, 4), v3(400_000, 600_000, 800_000));
    assert_eq!(march_ray(down, &none, &mut rng, 4), v3(ONE, ONE, ONE));
    assert_eq!(sky_color(v3(0, 0, ONE)), v3(700_000, 800_000, 900_000));
}

#[test]
fn black_body_lamp_gives_its_emission() {
    let mut rng = rand::thread_rng();
    let ray = Ray { origin: Vector3::zero(), direction: v3(0, 0, ONE) };
    let spheres = [sphere(v3(0, 0, 5 * ONE), ONE, lamp())];
    assert_eq!(trace_ray(ray, &spheres, &mut rng, 3), v3(ONE, ONE / 2, 0));
    assert_eq!(march_ray(ray, &spheres, &mut rng, 3), v3(ONE, ONE / 2, 0));
}

#[test]
fn smooth_grey_ground_tints_the_sky() {
    let mut rng = rand::thread_rng();
    // a smooth grey ground below: the ray bounces straight up along the normal and escapes
    let grey = Material { diffuse_color: v3(ONE / 2, ONE / 2, ONE / 2), emissive_color: Vector3::zero(), smoothness: ONE };
    let ground = [sphere(v3(0, -1_001 * ONE, 0), 1_000 * ONE, grey)];
    let ray = Ray { origin: Vector3::zero(), direction: v3(0, -ONE, 0) };
    assert_eq!(trace_ray(ray, &ground, &mut rng, 2), v3(200_000, 300_000, 400_000));
    assert_eq!(trace_ray(ray, &ground, &mut rng, 1), Vector3::zero());
}

#[test]
fn hemisphere_draws_face_the_normal() {
    let mut rng = rand::thread_rng();
    let normal = v3(0, ONE, 0);
    for _ in 0..200 {
        let d = rand_in_hemisphere(normal, &mut rng);
        assert!(d.dot(normal) >= 0);
        for c in [d.x, d.y, d.z] {
            assert!(-ONE <= c && c <= ONE);
        }
    }
}

#[test]
fn scatter_blends_towards_the_normal() {
    let normal = v3(0, ONE, 0);
    let across = v3(2 * ONE, 0, 0);
    assert_eq!(raytracer::scatter(across, normal, ONE), normal);
    assert_eq!(raytracer::scatter(across, normal, 0), v3(ONE, 0, 0));
    let halfway = raytracer::scatter(v3(ONE, 0, 0), normal, ONE / 2);
    // length 0.707106 after rounding, so each component comes out just above 1/sqrt(2)
    assert_eq!(halfway, v3(707_107, 707_107, 0));
}

#[test]
fn hemisphere_orientation_flips_backward_vectors() {
    let normal = v3(0, ONE, 0);
    assert_eq!(raytracer::orient_to_hemisphere(v3(ONE, -ONE, 0), normal), v3(-ONE, ONE, 0));
    assert_eq!(raytracer::orient_to_hemisphere(v3(ONE, ONE, 0), normal), v3(ONE, ONE, 0));
    // perpendicular draws are reversed too
    assert_eq!(raytracer::orient_to_hemisphere(v3(ONE, 0, 0), normal), v3(-ONE, 0, 0));
}

#[test]
fn shading_tints_and_adds_emission() {
    let m = Material { diffuse_color: v3(ONE / 2, ONE, 0), emissive_color: v3(0, 0, ONE / 4), smoothness: 0 };
    assert_eq!(raytracer::shade(&m, v3(ONE, ONE, ONE)), v3(ONE / 2, ONE, ONE / 4));
}
