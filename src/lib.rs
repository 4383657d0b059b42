//! A small offline renderer: vector algebra, ray/sphere intersection,
//! signed distance fields and the two integrators, over fixed-point scalars.
pub mod and;
pub mod camera;
pub mod cutout;
pub mod fixed;
pub mod hit;
pub mod march;
pub mod material;
pub mod ray;
pub mod sampling;
pub mod sdf;
pub mod sphere;
pub mod trace;
pub mod vector2;
pub mod vector3;

pub use and::And;
pub use camera::Camera;
pub use cutout::Cutout;
pub use fixed::{fx_add, fx_div, fx_max, fx_mul, fx_sqrt, fx_sub, MAX_RAW, ONE};
pub use hit::{Intersectable, RayHit};
pub use march::{get_object, march_ray, march_segment, MAX_DISTANCE, MAX_STEPS, MIN_DISTANCE};
pub use material::Material;
pub use ray::Ray;
pub use sampling::{orient_to_hemisphere, rand_in_hemisphere, scatter, shade, sky_color};
pub use sdf::{SdfShape, SDF};
pub use sphere::Sphere;
pub use trace::{get_nearest_hit, trace_ray};
pub use vector2::Vector2;
pub use vector3::Vector3;
