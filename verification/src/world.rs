//! The scene: spheres with materials, nearest-hit resolution, background.
use std::sync::Arc;

use vstd::prelude::*;

use crate::fixed::{fp_add, fp_add_s, fp_mul, fp_mul_s, fp_ok, FP_MAX, SCALE};
use crate::material::{material_ok, Material};
use crate::numbers::{blend_s, dot_s, square_length_s, unit_s, vec_ok, Color, Vector, HALF};
use crate::ray::{at_s, hit_ok, ray_ok, sphere_raw_normal_s, sphere_root_s, Hit, Ray};

verus! {

/// Smallest accepted hit distance: strictly positive, so a scattered ray
/// does not immediately re-hit the surface it just left.
pub const NEAR_EPSILON: i64 = 16;

pub struct Sphere {
    pub pos: Vector,
    pub radius: i64,
    pub material: Arc<Material>,
}

pub struct World {
    pub spheres: Vec<Sphere>,
}

pub open spec fn sphere_ok(s: Sphere) -> bool {
    vec_ok(s.pos) && 0 < s.radius && fp_ok(s.radius as int) && material_ok(*s.material)
}

pub open spec fn world_ok(w: World) -> bool {
    forall|i: int| 0 <= i < w.spheres@.len() ==> sphere_ok(#[trigger] w.spheres@[i])
}

/// The front-facing hit distance of one sphere, if the ray strikes it
/// between the self-intersection epsilon and the far limit.
pub open spec fn sphere_front_hit_s(ray: Ray, s: Sphere) -> Option<int> {
    match sphere_root_s(ray, s.pos, s.radius as int, NEAR_EPSILON as int, FP_MAX as int) {
        Some(t) => {
            if dot_s(ray.direction, sphere_raw_normal_s(ray, s.pos, s.radius as int, t)) < 0 {
                Some(t)
            } else {
                None
            }
        },
        None => None,
    }
}

/// The nearest front-facing hit over a sequence of spheres, as an index and
/// a distance; a later sphere displaces an earlier one only by a strictly
/// smaller distance.
pub open spec fn best_front_hit_s(ray: Ray, spheres: Seq<Sphere>) -> Option<(int, int)>
    decreases spheres.len(),
{
    if spheres.len() == 0 {
        None
    } else {
        let prev = best_front_hit_s(ray, spheres.drop_last());
        match sphere_front_hit_s(ray, spheres.last()) {
            Some(t) => match prev {
                Some(pair) => {
                    if t < pair.1 {
                        Some((spheres.len() - 1, t))
                    } else {
                        Some(pair)
                    }
                },
                None => Some((spheres.len() - 1, t)),
            },
            None => prev,
        }
    }
}

/// The background gradient: white blended toward the sky tone by the
/// direction's vertical component, mapped from `[-1, 1]` to `[0, 1]`.
pub open spec fn background_s(ray: Ray) -> Color {
    blend_s(
        Color { r: SCALE, g: SCALE, b: SCALE },
        Color { r: HALF, g: 45875i64, b: SCALE },
        fp_mul_s(HALF as int, fp_add_s(unit_s(ray.direction).y as int, SCALE as int)),
    )
}

/// The full record of the scene's nearest front-facing hit (meaningful when
/// one exists): the selected distance, the point reached, the struck
/// sphere's outward normal and its material.
pub open spec fn scene_hit_s(ray: Ray, w: World) -> Hit
    recommends
        best_front_hit_s(ray, w.spheres@) is Some,
{
    let pair = best_front_hit_s(ray, w.spheres@)->0;
    let idx = pair.0;
    let t = pair.1;
    Hit {
        by: ray,
        length: t as i64,
        pos: at_s(ray, t),
        normal: sphere_raw_normal_s(ray, w.spheres@[idx].pos, w.spheres@[idx].radius as int, t),
        front: true,
        material: w.spheres@[idx].material,
    }
}

/// The scene's selection is minimal: whenever some sphere has a
/// front-facing hit at distance `t`, the scene resolves to a hit no
/// farther than `t`.
pub proof fn lemma_best_is_minimal(ray: Ray, spheres: Seq<Sphere>, i: int, t: int)
    requires
        0 <= i < spheres.len(),
        sphere_front_hit_s(ray, spheres[i]) == Some(t),
    ensures
        best_front_hit_s(ray, spheres) is Some,
        ({
            let pair = best_front_hit_s(ray, spheres)->0;
            pair.1 <= t
        }),
    decreases spheres.len(),
{
    let prev = best_front_hit_s(ray, spheres.drop_last());
    if i == spheres.len() - 1 {
        assert(spheres.last() == spheres[i]);
    } else {
        assert(spheres.drop_last()[i] == spheres[i]);
        lemma_best_is_minimal(ray, spheres.drop_last(), i, t);
    }
}

/// Nearest-hit selection: when two spheres both stand front-facing in a
/// ray's path, the scene resolves to the strictly smaller hit distance,
/// in whichever order the spheres are listed.
pub proof fn lemma_nearest_hit_of_two(ray: Ray, s1: Sphere, s2: Sphere, t1: int, t2: int)
    requires
        sphere_front_hit_s(ray, s1) == Some(t1),
        sphere_front_hit_s(ray, s2) == Some(t2),
        t1 < t2,
    ensures
        best_front_hit_s(ray, seq![s1, s2]) == Some((0int, t1)),
        best_front_hit_s(ray, seq![s2, s1]) == Some((1int, t1)),
{
    let near = seq![s1, s2];
    let far = seq![s2, s1];
    assert(near.drop_last() =~= seq![s1]);
    assert(far.drop_last() =~= seq![s2]);
    assert(seq![s1].drop_last() =~= Seq::<Sphere>::empty());
    assert(seq![s2].drop_last() =~= Seq::<Sphere>::empty());
    assert(best_front_hit_s(ray, Seq::<Sphere>::empty()) is None);
    assert(seq![s1].last() == s1);
    assert(seq![s2].last() == s2);
    assert(best_front_hit_s(ray, seq![s1]) == Some((0int, t1)));
    assert(best_front_hit_s(ray, seq![s2]) == Some((0int, t2)));
    assert(near.last() == s2);
    assert(far.last() == s1);
}

impl World {
    /// The nearest front-facing intersection of the ray with any sphere.
    pub fn hit(&self, ray: &Ray) -> (h: Option<Hit>)
        requires
            ray_ok(*ray),
            square_length_s(ray.direction) >= 1,
            world_ok(*self),
        ensures
            match h {
                None => best_front_hit_s(*ray, self.spheres@) is None,
                Some(hit) => {
                    let best = best_front_hit_s(*ray, self.spheres@);
                    &&& best is Some
                    &&& {
                        let pair = best->0;
                        let idx = pair.0;
                        &&& pair.1 == hit.length as int
                        &&& 0 <= idx < self.spheres@.len()
                        &&& hit.by == *ray
                        &&& hit.front
                        &&& hit.pos == at_s(*ray, hit.length as int)
                        &&& hit.normal == sphere_raw_normal_s(
                            *ray,
                            self.spheres@[idx].pos,
                            self.spheres@[idx].radius as int,
                            hit.length as int,
                        )
                        &&& dot_s(ray.direction, hit.normal) < 0
                        &&& hit.material == self.spheres@[idx].material
                        &&& hit == scene_hit_s(*ray, *self)
                        &&& hit_ok(hit)
                    }
                },
            },
    {
        let mut best: Option<Hit> = None;
        let ghost mut best_idx: int = 0;
        let mut i: usize = 0;
        while i < self.spheres.len()
            invariant
                i <= self.spheres.len(),
                ray_ok(*ray),
                square_length_s(ray.direction) >= 1,
                world_ok(*self),
                match best {
                    None => best_front_hit_s(*ray, self.spheres@.take(i as int)) is None,
                    Some(hit) => {
                        &&& best_front_hit_s(*ray, self.spheres@.take(i as int)) == Some(
                            (best_idx, hit.length as int),
                        )
                        &&& 0 <= best_idx < i
                        &&& hit.by == *ray
                        &&& hit.front
                        &&& hit.pos == at_s(*ray, hit.length as int)
                        &&& hit.normal == sphere_raw_normal_s(
                            *ray,
                            self.spheres@[best_idx].pos,
                            self.spheres@[best_idx].radius as int,
                            hit.length as int,
                        )
                        &&& dot_s(ray.direction, hit.normal) < 0
                        &&& hit.material == self.spheres@[best_idx].material
                        &&& hit_ok(hit)
                    },
                },
            decreases self.spheres.len() - i,
        {
            let ghost pre = self.spheres@.take(i as int);
            let s = &self.spheres[i];
            let candidate = ray.hit_sphere(s.pos, s.radius, NEAR_EPSILON, FP_MAX, &s.material);
            match candidate {
                Some(hit) => {
                    if hit.front {
                        let replace: bool = match &best {
                            Some(b) => hit.length < b.length,
                            None => true,
                        };
                        if replace {
                            proof {
                                best_idx = i as int;
                            }
                            best = Some(hit);
                        }
                    }
                },
                None => {},
            }
            proof {
                let post = self.spheres@.take(i + 1);
                assert(post.drop_last() =~= pre);
                assert(post.last() == self.spheres@[i as int]);
            }
            i = i + 1;
        }
        proof {
            assert(self.spheres@.take(self.spheres@.len() as int) =~= self.spheres@);
        }
        best
    }

    /// the fixed demonstration scene
    pub fn new() -> (w: World)
        ensures
            world_ok(w),
            w.spheres@.len() == 4,
    {
        let center = Sphere::new(0, 0, -SCALE, HALF);
        let glossy = Sphere::new(SCALE, 0, -SCALE, 26214).with_material(
            Material::Metal(16384, Color::green()),
        );
        let rough = Sphere::new(-SCALE, 0, -SCALE, 26214).with_material(
            Material::Diffuse(HALF, Color::blue()),
        );
        let ground = Sphere::new(2 * SCALE, -65568768, -SCALE, 65536000);
        let mut spheres: Vec<Sphere> = Vec::new();
        spheres.push(center);
        spheres.push(glossy);
        spheres.push(rough);
        spheres.push(ground);
        World { spheres }
    }

    /// The radiance a ray that escapes the scene samples from the sky.
    pub fn background_color(&self, ray: &Ray) -> (c: Color)
        requires
            ray_ok(*ray),
            square_length_s(ray.direction) >= 1,
        ensures
            c == background_s(*ray),
            crate::numbers::color_ok(c),
    {
        let unit_direction = ray.direction.unit();
        let horizon = fp_mul(HALF, fp_add(unit_direction.y, SCALE));
        Color::blend(Color::white(), Color::grade(), horizon)
    }
}

impl Sphere {
    pub fn new(x: i64, y: i64, z: i64, radius: i64) -> (s: Sphere)
        requires
            fp_ok(x as int),
            fp_ok(y as int),
            fp_ok(z as int),
            0 < radius,
            fp_ok(radius as int),
        ensures
            s.pos == (Vector { x, y, z }),
            s.radius == radius,
            *s.material == Material::Diffuse(SCALE, (Color { r: 13107i64, g: 13107i64, b: 13107i64 })),
            sphere_ok(s),
    {
        let pos = Vector::new(x, y, z);
        let material = Arc::new(Material::new());
        Sphere { pos, radius, material }
    }

    pub fn with_material(self, material: Material) -> (s: Sphere)
        requires
            material_ok(material),
        ensures
            s.pos == self.pos,
            s.radius == self.radius,
            *s.material == material,
            sphere_ok(self) ==> sphere_ok(s),
    {
        Sphere { pos: self.pos, radius: self.radius, material: Arc::new(material) }
    }
}

} // verus!
