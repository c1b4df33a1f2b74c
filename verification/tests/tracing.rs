//! Intersection, scattering and the integrator, in raw fixed-point units.
use std::sync::Arc;

use raytrace::camera::Camera;
use raytrace::fixed::{FP_MAX, SCALE};
use raytrace::material::Material;
use raytrace::numbers::{Color, Vector};
use raytrace::ray::{Hit, Ray};
use raytrace::world::{Sphere, World, NEAR_EPSILON};

fn default_material() -> Arc<Material> {
    Arc::new(Material::new())
}

/// A ray from the origin straight down the negative z axis.
fn axis_ray() -> Ray {
    Ray::new(Vector::new(0, 0, 0), Vector::new(0, 0, -SCALE))
}

#[test]
fn test_hit_sphere_from_outside() {
    let m = default_material();
    let hit = axis_ray()
        .hit_sphere(Vector::new(0, 0, -2 * SCALE), SCALE / 2, NEAR_EPSILON, FP_MAX, &m)
        .expect("the ray aims at the sphere");
    // entry at z = -1.5, one and a half units along the ray
    assert_eq!(hit.length, 98304);
    assert_eq!((hit.pos.x, hit.pos.y, hit.pos.z), (0, 0, -98304));
    assert_eq!((hit.normal.x, hit.normal.y, hit.normal.z), (0, 0, SCALE));
    assert!(hit.front);
}

#[test]
fn test_hit_sphere_miss() {
    let m = default_material();
    let hit = axis_ray().hit_sphere(Vector::new(5 * SCALE, 0, -2 * SCALE), SCALE / 2, NEAR_EPSILON, FP_MAX, &m);
    assert!(hit.is_none());
}

/// A ray starting exactly on a sphere's surface and aimed outward finds no
/// further hit once `near` excludes distance zero.
#[test]
fn test_on_surface_outward_no_hit() {
    let m = default_material();
    let ray = Ray::new(Vector::new(0, 0, -SCALE), Vector::new(0, 0, SCALE));
    let hit = ray.hit_sphere(Vector::new(0, 0, -2 * SCALE), SCALE, NEAR_EPSILON, FP_MAX, &m);
    assert!(hit.is_none());
}

/// From inside the sphere the recorded normal is flipped to face the ray,
/// while `front` records that the back was struck.
#[test]
fn test_normal_orientation_from_inside() {
    let m = default_material();
    let ray = Ray::new(Vector::new(0, 0, -2 * SCALE), Vector::new(0, 0, -SCALE));
    let hit = ray
        .hit_sphere(Vector::new(0, 0, -2 * SCALE), SCALE / 2, NEAR_EPSILON, FP_MAX, &m)
        .expect("a ray from the center always strikes the shell");
    assert!(!hit.front);
    assert_eq!((hit.normal.x, hit.normal.y, hit.normal.z), (0, 0, SCALE));
    assert!(hit.by.direction.dot(&hit.normal) < 0);
}

/// From outside, the normal already faces the ray and is kept.
#[test]
fn test_normal_orientation_from_outside() {
    let m = default_material();
    let hit = axis_ray()
        .hit_sphere(Vector::new(0, 0, -2 * SCALE), SCALE / 2, NEAR_EPSILON, FP_MAX, &m)
        .expect("the ray aims at the sphere");
    assert!(hit.front);
    assert!(hit.by.direction.dot(&hit.normal) < 0);
}

/// Two overlapping spheres along the ray's path: the scene resolves to the
/// strictly smaller hit distance, in either listing order.
#[test]
fn test_nearest_hit_of_overlapping_spheres() {
    let near = Sphere::new(0, 0, -2 * SCALE, SCALE / 2);
    let far = Sphere::new(0, 0, -3 * SCALE, SCALE);
    let world_a = World { spheres: vec![near, far] };
    let hit_a = world_a.hit(&axis_ray()).expect("both spheres lie ahead");
    assert_eq!(hit_a.length, 98304);
    let near2 = Sphere::new(0, 0, -2 * SCALE, SCALE / 2);
    let far2 = Sphere::new(0, 0, -3 * SCALE, SCALE);
    let world_b = World { spheres: vec![far2, near2] };
    let hit_b = world_b.hit(&axis_ray()).expect("both spheres lie ahead");
    assert_eq!(hit_b.length, 98304);
}

fn front_hit_record(material: Arc<Material>) -> Hit {
    // the straight-on hit of test_hit_sphere_from_outside
    Hit {
        by: axis_ray(),
        length: 98304,
        pos: Vector::new(0, 0, -98304),
        normal: Vector::new(0, 0, SCALE),
        front: true,
        material,
    }
}

/// Diffuse scatter: the attenuation is the albedo exactly and the
/// scattered ray starts at the hit position.
#[test]
fn test_diffuse_scatter_albedo_and_origin() {
    let albedo = Color::new(100, 200, 300);
    let m = Material::Diffuse(SCALE, albedo);
    let hit = front_hit_record(Arc::new(m));
    let m = Material::Diffuse(SCALE, albedo);
    let bounce = m.scatter(hit).expect("a diffuse surface always scatters");
    assert_eq!((bounce.attenuation.r, bounce.attenuation.g, bounce.attenuation.b), (100, 200, 300));
    assert_eq!((bounce.ray.origin.x, bounce.ray.origin.y, bounce.ray.origin.z), (0, 0, -98304));
}

/// Metal with roughness zero: the scattered direction is the exact mirror
/// reflection, and its angle to the normal mirrors the incoming angle.
#[test]
fn test_metal_mirror_reflection() {
    let albedo = Color::new(0, SCALE, 0);
    let m = Material::Metal(0, albedo);
    let incoming = Ray::new(Vector::new(-SCALE, 0, 0), Vector::new(SCALE, 0, -SCALE));
    let normal = Vector::new(0, 0, SCALE);
    let hit = Hit {
        by: incoming,
        length: SCALE,
        pos: Vector::new(0, 0, -SCALE),
        normal,
        front: true,
        material: Arc::new(Material::Metal(0, albedo)),
    };
    let bounce = m.scatter(hit).expect("the mirror direction leaves the surface");
    assert_eq!((bounce.ray.direction.x, bounce.ray.direction.y, bounce.ray.direction.z), (46341, 0, 46341));
    let d = incoming.direction.unit();
    assert_eq!(bounce.ray.direction.dot(&normal), -d.dot(&normal));
    assert_eq!((bounce.attenuation.r, bounce.attenuation.g, bounce.attenuation.b), (0, SCALE, 0));
}

/// A glancing metal reflection that would pass into the surface is
/// absorbed.
#[test]
fn test_metal_absorbs_inward_scatter() {
    let m = Material::Metal(0, Color::new(SCALE, SCALE, SCALE));
    // the ray leaves the surface along it: the reflection stays in the plane
    let incoming = Ray::new(Vector::new(-SCALE, 0, 0), Vector::new(SCALE, 0, 0));
    let hit = Hit {
        by: incoming,
        length: SCALE,
        pos: Vector::new(0, 0, 0),
        normal: Vector::new(0, 0, SCALE),
        front: true,
        material: Arc::new(Material::Metal(0, Color::new(SCALE, SCALE, SCALE))),
    };
    assert!(m.scatter(hit).is_none());
}

/// Dielectric scatter entering the front face: the refraction ratio is
/// `1 / ior`, bending the oblique ray toward the normal.
#[test]
fn test_dielectric_refracts_front_face() {
    let m = Material::Dielectric(2 * SCALE, Color::new(0, 0, SCALE));
    let incoming = Ray::new(Vector::new(-SCALE, 0, SCALE), Vector::new(SCALE, 0, -SCALE));
    let hit = Hit {
        by: incoming,
        length: SCALE,
        pos: Vector::new(0, 0, 0),
        normal: Vector::new(0, 0, SCALE),
        front: true,
        material: Arc::new(Material::Dielectric(2 * SCALE, Color::new(0, 0, SCALE))),
    };
    let bounce = m.scatter(hit).expect("a dielectric always refracts");
    assert_eq!((bounce.ray.direction.x, bounce.ray.direction.y, bounce.ray.direction.z), (23170, 0, -61303));
}

/// The same geometry leaving through the back face uses the ratio `ior`,
/// bending the ray away from the normal instead.
#[test]
fn test_dielectric_refracts_back_face() {
    let m = Material::Dielectric(2 * SCALE, Color::new(0, 0, SCALE));
    let incoming = Ray::new(Vector::new(-SCALE, 0, SCALE), Vector::new(SCALE, 0, -SCALE));
    let hit = Hit {
        by: incoming,
        length: SCALE,
        pos: Vector::new(0, 0, 0),
        normal: Vector::new(0, 0, SCALE),
        front: false,
        material: Arc::new(Material::Dielectric(2 * SCALE, Color::new(0, 0, SCALE))),
    };
    let bounce = m.scatter(hit).expect("a dielectric always refracts");
    assert_eq!((bounce.ray.direction.x, bounce.ray.direction.y, bounce.ray.direction.z), (92682, 0, -SCALE));
}

/// A ray aimed away from every sphere returns exactly the background
/// gradient, whatever bounce budget it was given.
#[test]
fn test_cast_miss_is_background() {
    let world = World { spheres: vec![Sphere::new(0, 0, -2 * SCALE, SCALE / 2)] };
    let up_and_away = Ray::new(Vector::new(0, 0, 0), Vector::new(0, 3 * SCALE, SCALE));
    let c = up_and_away.cast(&world, 50);
    let bg = world.background_color(&up_and_away);
    assert_eq!((c.r, c.g, c.b), (bg.r, bg.g, bg.b));
}

/// An exhausted bounce budget on a hit returns the fixed terminal marker.
#[test]
fn test_cast_depth_exhausted_is_marker() {
    let world = World { spheres: vec![Sphere::new(0, 0, -2 * SCALE, SCALE / 2)] };
    let c = axis_ray().cast(&world, 0);
    assert_eq!((c.r, c.g, c.b), (SCALE, 0, 0));
}

/// The demonstration scene resolves the straight-ahead ray to the center
/// sphere.
#[test]
fn test_default_world_center_sphere() {
    let world = World::new();
    let hit = world.hit(&axis_ray()).expect("the center sphere sits ahead");
    // entry at z = -0.5
    assert_eq!(hit.length, SCALE / 2);
    assert!(hit.front);
}

/// End-to-end: a 2x2-unit camera images one sphere of radius one half a
/// unit ahead, on a 2x2 pixel grid with one sample per pixel and a bounce
/// budget of zero. Every produced ray either strikes the sphere and
/// reports the terminal marker, or misses and reports a background value
/// strictly between the gradient's endpoints.
#[test]
fn test_end_to_end_two_by_two() {
    let world = World { spheres: vec![Sphere::new(0, 0, -SCALE, SCALE / 2)] };
    let camera = Camera::new(2 * SCALE, 2 * SCALE);
    let mut iter = camera.rays(2, 2, 1);
    let mut pixels: usize = 0;
    while let Some((_uv, rays)) = iter.next() {
        assert_eq!(rays.len(), 1);
        for ray in rays {
            let c = ray.cast(&world, 0);
            if world.hit(&ray).is_some() {
                assert_eq!((c.r, c.g, c.b), (SCALE, 0, 0));
            } else {
                // never pure white, never pure sky
                assert!(SCALE / 2 < c.r && c.r < SCALE);
                assert!(45875 < c.g && c.g < SCALE);
                assert_eq!(c.b, SCALE);
            }
        }
        pixels += 1;
    }
    assert_eq!(pixels, 4);
    // the primary ray through the image center strikes the sphere
    let center_ray = axis_ray();
    assert!(world.hit(&center_ray).is_some());
    let c = center_ray.cast(&world, 0);
    assert_eq!((c.r, c.g, c.b), (SCALE, 0, 0));
}

/// The background gradient of the straight-ahead direction sits exactly
/// halfway between white and the sky tone.
#[test]
fn test_background_midpoint() {
    let world = World { spheres: vec![] };
    let c = world.background_color(&axis_ray());
    assert_eq!((c.r, c.g, c.b), (49152, 55705, SCALE));
}

/// Jittering a ray moves its origin by at most one footprint and keeps its
/// direction.
#[test]
fn test_perturb_bounds() {
    let ray = Ray::new(Vector::new(100, 200, 300), Vector::new(0, 0, -SCALE));
    let mut n: usize = 0;
    while n < 16 {
        let p = ray.perturb(SCALE, SCALE / 2);
        assert_eq!((p.direction.x, p.direction.y, p.direction.z), (0, 0, -SCALE));
        assert!(100 <= p.origin.x && p.origin.x <= 100 + SCALE);
        assert!(200 <= p.origin.y && p.origin.y <= 200 + SCALE / 2);
        assert_eq!(p.origin.z, 300);
        n += 1;
    }
}
