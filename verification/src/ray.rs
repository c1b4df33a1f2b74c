//! Rays, hit records, ray/sphere intersection and the recursive integrator.
use std::sync::Arc;

use vstd::prelude::*;

use crate::fixed::{
    fp_add, fp_add_s, fp_div, fp_div_s, fp_mul, fp_mul_s, fp_neg, fp_ok, fp_sqrt, fp_sqrt_s,
    fp_sub, fp_sub_s, FP_MAX, SCALE,
};
use crate::material::{scatter_outcome_s, Material};
use crate::numbers::{
    color_ok, dot_s, lemma_dot_neg, rand_unit, square_length_s, unit_s, v_add_s, v_div_scalar_s,
    v_neg_s, v_scale_s, v_sub_s, vec_ok, Color, Vector,
};
use crate::world::{background_s, best_front_hit_s, scene_hit_s, world_ok, World};

verus! {

#[derive(Copy, Clone, PartialEq, Eq, Structural)]
pub struct Ray {
    pub origin: Vector,
    pub direction: Vector,
}

#[derive(Clone, PartialEq, Eq, Structural)]
pub struct Bounce {
    pub ray: Ray,
    pub attenuation: Color,
}

#[derive(Clone)]
pub struct Hit {
    /// the ray that struck the surface
    pub by: Ray,
    pub length: i64,
    pub pos: Vector,
    pub normal: Vector,
    pub front: bool,
    pub material: Arc<Material>,
}

pub open spec fn ray_ok(r: Ray) -> bool {
    vec_ok(r.origin) && vec_ok(r.direction)
}

pub open spec fn hit_ok(h: Hit) -> bool {
    ray_ok(h.by) && fp_ok(h.length as int) && vec_ok(h.pos) && vec_ok(h.normal)
}

/// The point `origin + t * direction`.
pub open spec fn at_s(r: Ray, t: int) -> Vector {
    v_add_s(r.origin, v_scale_s(r.direction, t))
}

/// How one scatter outcome composes with the radiance gathered beyond it:
/// absorption, or a degenerate scattered ray, contributes black; a live
/// bounce attenuates what its ray gathered.
pub open spec fn gather_s(outcome: Option<Bounce>, rest: Color) -> Color {
    match outcome {
        None => Color { r: 0, g: 0, b: 0 },
        Some(b) => {
            if square_length_s(b.ray.direction) >= 1 {
                crate::numbers::c_mul_s(b.attenuation, rest)
            } else {
                Color { r: 0, g: 0, b: 0 }
            }
        },
    }
}

impl Hit {
    /// Record a hit, orienting the normal against the incoming ray; `front`
    /// keeps whether the surface was struck from the normal's own side.
    pub fn new(ray: &Ray, length: i64, pos: Vector, normal: Vector, material: &Arc<Material>) -> (h:
        Hit)
        requires
            ray_ok(*ray),
            fp_ok(length as int),
            vec_ok(pos),
            vec_ok(normal),
        ensures
            h.by == *ray,
            h.length == length,
            h.pos == pos,
            h.front == (dot_s(ray.direction, normal) < 0),
            h.normal == (if dot_s(ray.direction, normal) < 0 {
                normal
            } else {
                v_neg_s(normal)
            }),
            h.material == *material,
            dot_s(ray.direction, normal) != 0 ==> dot_s(ray.direction, h.normal) < 0,
            hit_ok(h),
    {
        let front = ray.direction.dot(&normal) < 0;
        let oriented = if front {
            normal
        } else {
            normal.neg()
        };
        proof {
            lemma_dot_neg(ray.direction, normal);
        }
        let material = material.clone();
        Hit { by: *ray, length, pos, normal: oriented, front, material }
    }
}

/// The quadratic's leading coefficient: `|direction|^2`.
pub open spec fn sphere_a_s(ray: Ray) -> int {
    square_length_s(ray.direction)
}

/// Half the quadratic's linear coefficient: `dot(origin - center, direction)`.
pub open spec fn sphere_half_b_s(ray: Ray, center: Vector) -> int {
    dot_s(v_sub_s(ray.origin, center), ray.direction)
}

/// The quadratic's constant coefficient: `|origin - center|^2 - radius^2`.
pub open spec fn sphere_c_s(ray: Ray, center: Vector, radius: int) -> int {
    fp_sub_s(square_length_s(v_sub_s(ray.origin, center)), fp_mul_s(radius, radius))
}

/// The half-b discriminant `half_b^2 - a * c`.
pub open spec fn sphere_disc_s(ray: Ray, center: Vector, radius: int) -> int {
    fp_sub_s(
        fp_mul_s(sphere_half_b_s(ray, center), sphere_half_b_s(ray, center)),
        fp_mul_s(sphere_a_s(ray), sphere_c_s(ray, center, radius)),
    )
}

/// The root the intersection routine selects: the smaller root when it lies
/// in `[near, far]`, else the larger when it does, else none.
pub open spec fn sphere_root_s(ray: Ray, center: Vector, radius: int, near: int, far: int) -> Option<
    int,
> {
    let a = sphere_a_s(ray);
    let half_b = sphere_half_b_s(ray, center);
    let disc = sphere_disc_s(ray, center, radius);
    if disc < 0 {
        None
    } else {
        let sqrtd = fp_sqrt_s(disc);
        let root1 = fp_div_s(fp_sub_s(-half_b, sqrtd), a);
        if near <= root1 <= far {
            Some(root1)
        } else {
            let root2 = fp_div_s(fp_add_s(-half_b, sqrtd), a);
            if near <= root2 <= far {
                Some(root2)
            } else {
                None
            }
        }
    }
}

/// The surface normal at parameter `t`, before orientation:
/// `(at(t) - center) / radius`.
pub open spec fn sphere_raw_normal_s(ray: Ray, center: Vector, radius: int, t: int) -> Vector {
    v_div_scalar_s(v_sub_s(at_s(ray, t), center), radius)
}

/// A ray whose origin lies exactly on a sphere's surface (the quadratic's
/// constant coefficient is zero) and which aims outward (positive half-b)
/// finds no hit at all once `near` excludes distance zero: both roots are
/// at most zero, so the `near` epsilon rejects them.
pub proof fn lemma_surface_origin_no_hit(
    ray: Ray,
    center: Vector,
    radius: int,
    near: int,
    far: int,
)
    requires
        sphere_a_s(ray) >= 1,
        sphere_c_s(ray, center, radius) == 0,
        sphere_half_b_s(ray, center) > 0,
        near > 0,
    ensures
        sphere_root_s(ray, center, radius, near, far) is None,
{
    let sc = SCALE as int;
    let a = sphere_a_s(ray);
    let hb = sphere_half_b_s(ray, center);
    let m = crate::fixed::fp_mul_s(hb, hb);
    assert(hb * hb >= 0) by (nonlinear_arith)
        requires
            hb > 0,
    ;
    assert(crate::fixed::trunc_div(hb * hb, sc) == hb * hb / sc);
    vstd::arithmetic::div_mod::lemma_fundamental_div_mod(hb * hb, sc);
    assert((hb * hb / sc) * sc <= hb * hb) by (nonlinear_arith)
        requires
            hb * hb == sc * (hb * hb / sc) + (hb * hb) % sc,
            (hb * hb) % sc >= 0,
    ;
    assert(crate::fixed::fp_mul_s(a, 0) == 0);
    let disc = sphere_disc_s(ray, center, radius);
    assert(disc == m);
    assert(disc <= hb * hb / sc);
    assert(disc * sc <= (hb * hb / sc) * sc) by (nonlinear_arith)
        requires
            disc <= hb * hb / sc,
            sc > 0,
    ;
    let sqrtd = fp_sqrt_s(disc);
    crate::fixed::lemma_sqrt_exists(disc * sc);
    crate::fixed::lemma_sqrt_le(disc * sc, hb);
    assert(sqrtd <= hb);
    assert(sqrtd >= 0);
    let n1 = fp_sub_s(-hb, sqrtd);
    let n2 = fp_add_s(-hb, sqrtd);
    assert(n1 <= 0);
    assert(n2 <= 0);
    assert(fp_div_s(n1, a) <= 0) by {
        lemma_nonpos_div(n1, a);
    }
    assert(fp_div_s(n2, a) <= 0) by {
        lemma_nonpos_div(n2, a);
    }
}

/// A nonpositive numerator gives a nonpositive fixed-point quotient.
proof fn lemma_nonpos_div(n: int, a: int)
    requires
        n <= 0,
        a >= 1,
    ensures
        fp_div_s(n, a) <= 0,
{
    let sc = SCALE as int;
    assert(n * sc <= 0) by (nonlinear_arith)
        requires
            n <= 0,
            sc >= 1,
    ;
    let p = n * sc;
    if p == 0 {
    } else {
        assert(crate::fixed::trunc_div(p, a) == -((-p) / a));
        assert((-p) / a >= 0);
    }
}

impl Ray {
    pub fn new(origin: Vector, direction: Vector) -> (r: Ray)
        ensures
            r == (Ray { origin, direction }),
    {
        Ray { origin, direction }
    }

    /// The point reached after `magnitude` along the direction.
    pub fn at(&self, magnitude: i64) -> (p: Vector)
        requires
            ray_ok(*self),
            fp_ok(magnitude as int),
        ensures
            p == at_s(*self, magnitude as int),
            vec_ok(p),
    {
        self.origin.add(&self.direction.scale(magnitude))
    }

    /// The same ray with its direction scaled to length one.
    pub fn unit(&self) -> (r: Ray)
        requires
            ray_ok(*self),
            square_length_s(self.direction) >= 1,
        ensures
            r.origin == self.origin,
            r.direction == unit_s(self.direction),
            ray_ok(r),
    {
        let length = self.direction.length();
        proof {
            crate::numbers::lemma_sqrt_pos(square_length_s(self.direction));
        }
        Ray { origin: self.origin, direction: self.direction.div(length) }
    }

    /// Nearest intersection with the sphere `(center, radius)` whose
    /// parameter lies in `[near, far]`, resolved by the half-b quadratic.
    pub fn hit_sphere(
        &self,
        center: Vector,
        radius: i64,
        near: i64,
        far: i64,
        material: &Arc<Material>,
    ) -> (h: Option<Hit>)
        requires
            ray_ok(*self),
            vec_ok(center),
            0 < radius,
            fp_ok(radius as int),
            fp_ok(near as int),
            fp_ok(far as int),
            sphere_a_s(*self) >= 1,
        ensures
            match h {
                None => sphere_root_s(*self, center, radius as int, near as int, far as int)
                    is None,
                Some(hit) => {
                    let root = sphere_root_s(*self, center, radius as int, near as int, far as int);
                    let raw = sphere_raw_normal_s(*self, center, radius as int, hit.length as int);
                    &&& root == Some(hit.length as int)
                    &&& hit.by == *self
                    &&& hit.pos == at_s(*self, hit.length as int)
                    &&& hit.front == (dot_s(self.direction, raw) < 0)
                    &&& hit.normal == (if dot_s(self.direction, raw) < 0 {
                        raw
                    } else {
                        v_neg_s(raw)
                    })
                    &&& hit.material == *material
                    &&& hit_ok(hit)
                },
            },
    {
        let oc: Vector = self.origin.sub(&center);
        let a = self.direction.square_length();
        let half_b = oc.dot(&self.direction);
        let c = fp_sub(oc.square_length(), fp_mul(radius, radius));
        let discriminant = fp_sub(fp_mul(half_b, half_b), fp_mul(a, c));
        if discriminant < 0 {
            None
        } else {
            let sqrtd = fp_sqrt(discriminant);
            let root1 = fp_div(fp_sub(fp_neg(half_b), sqrtd), a);
            let root: Option<i64> = if root1 < near || far < root1 {
                let root2 = fp_div(fp_add(fp_neg(half_b), sqrtd), a);
                if root2 < near || far < root2 {
                    None
                } else {
                    Some(root2)
                }
            } else {
                Some(root1)
            };
            match root {
                Some(root) => {
                    let length = root;
                    let pos = self.at(length);
                    let normal = pos.sub(&center).div(radius);
                    Some(Hit::new(self, length, pos, normal, material))
                },
                None => None,
            }
        }
    }

    /// Recursive radiance evaluation: the background on a miss, the fixed
    /// terminal color (pure red) once the bounce budget is exhausted, and
    /// otherwise the scattered radiance attenuated by the material; a
    /// scatter that is absorbed, or whose ray is too short to trace,
    /// contributes black. Each bounce consumes one unit of `depth`, so the
    /// recursion is at most `depth + 1` activations deep, and a miss
    /// returns without recursing at all.
    pub fn cast(&self, world: &World, depth: usize) -> (c: Color)
        requires
            ray_ok(*self),
            square_length_s(self.direction) >= 1,
            world_ok(*world),
        ensures
            best_front_hit_s(*self, world.spheres@) is None ==> c == background_s(*self),
            best_front_hit_s(*self, world.spheres@) is Some && depth == 0 ==> c == (Color {
                r: SCALE,
                g: 0i64,
                b: 0i64,
            }),
            best_front_hit_s(*self, world.spheres@) is Some && depth > 0 ==> exists|
                rnd: Vector,
                rest: Color,
            |
                {
                    &&& vec_ok(rnd)
                    &&& square_length_s(rnd) <= SCALE as int
                    &&& color_ok(rest)
                    &&& c == #[trigger] gather_s(
                        scatter_outcome_s(
                            *scene_hit_s(*self, *world).material,
                            scene_hit_s(*self, *world),
                            rnd,
                        ),
                        rest,
                    )
                },
            color_ok(c),
        decreases depth,
    {
        let hit = world.hit(self);
        match hit {
            Some(hit) => {
                if depth > 0 {
                    let ghost record = hit;
                    let material = hit.material.clone();
                    let bounce = material.scatter(hit);
                    let ghost outcome = bounce;
                    let ghost drawn = choose|rnd: Vector|
                        {
                            &&& vec_ok(rnd)
                            &&& square_length_s(rnd) <= SCALE as int
                            &&& outcome == #[trigger] scatter_outcome_s(*record.material, record, rnd)
                        };
                    let result: Color = match bounce {
                        Some(bounce) => {
                            let Bounce { ray, attenuation } = bounce;
                            if ray.direction.square_length() >= 1 {
                                let gathered = ray.cast(world, depth - 1);
                                let shaded = attenuation.mul(&gathered);
                                proof {
                                    assert(shaded == gather_s(
                                        scatter_outcome_s(*record.material, record, drawn),
                                        gathered,
                                    ));
                                }
                                shaded
                            } else {
                                proof {
                                    assert(Color { r: 0i64, g: 0i64, b: 0i64 } == gather_s(
                                        scatter_outcome_s(*record.material, record, drawn),
                                        (Color { r: 0i64, g: 0i64, b: 0i64 }),
                                    ));
                                }
                                Color::black()
                            }
                        },
                        None => {
                            proof {
                                assert(Color { r: 0i64, g: 0i64, b: 0i64 } == gather_s(
                                    scatter_outcome_s(*record.material, record, drawn),
                                    (Color { r: 0i64, g: 0i64, b: 0i64 }),
                                ));
                            }
                            Color::black()
                        },
                    };
                    result
                } else {
                    Color::red()
                }
            },
            None => world.background_color(self),
        }
    }

    /// move the ray's origin around a bit, by an independent uniform jitter
    /// of up to one footprint (`scale_x`, `scale_y`) in the view plane
    pub fn perturb(&self, scale_x: i64, scale_y: i64) -> (r: Ray)
        requires
            ray_ok(*self),
            fp_ok(scale_x as int),
            fp_ok(scale_y as int),
        ensures
            r.direction == self.direction,
            exists|dx: int, dy: int|
                {
                    &&& 0 <= dx <= SCALE as int
                    &&& 0 <= dy <= SCALE as int
                    &&& r.origin == v_add_s(
                        self.origin,
                        (Vector {
                            x: fp_mul_s(dx, scale_x as int) as i64,
                            y: fp_mul_s(dy, scale_y as int) as i64,
                            z: 0i64,
                        }),
                    )
                },
            ray_ok(r),
    {
        let dx = rand_unit();
        let dy = rand_unit();
        let ghost gx: int = dx as int;
        let ghost gy: int = dy as int;
        let offset = Vector::new(fp_mul(dx, scale_x), fp_mul(dy, scale_y), 0);
        let origin = self.origin.add(&offset);
        proof {
            assert(origin == v_add_s(
                self.origin,
                (Vector {
                    x: fp_mul_s(gx, scale_x as int) as i64,
                    y: fp_mul_s(gy, scale_y as int) as i64,
                    z: 0i64,
                }),
            ));
        }
        Ray { origin, direction: self.direction }
    }
}

} // verus!
