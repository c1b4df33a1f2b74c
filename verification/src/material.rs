//! The closed set of surface scattering laws.
use vstd::prelude::*;

use crate::fixed::{
    fp_add, fp_add_s, fp_div, fp_div_s, fp_ok, fp_sqrt, fp_sqrt_s, fp_sub, fp_sub_s, SCALE,
};
use crate::numbers::{
    color_ok, dot_s, square_length_s, unit_s, v_add_s, v_neg_s, v_scale_s, v_sub_s, vec_ok, Color,
    Vector,
};
use crate::ray::{hit_ok, ray_ok, Bounce, Hit, Ray};

verus! {

pub enum Material {
    /// roughness and albedo
    Metal(i64, Color),
    /// roughness and albedo
    Diffuse(i64, Color),
    /// index of refraction and albedo
    Dielectric(i64, Color),
}

/// Roughness lies in `[0, 1]`, a refractive index is positive, and albedo
/// channels are representable.
pub open spec fn material_ok(m: Material) -> bool {
    match m {
        Material::Metal(roughness, albedo) => 0 <= roughness <= SCALE && color_ok(albedo),
        Material::Diffuse(roughness, albedo) => 0 <= roughness <= SCALE && color_ok(albedo),
        Material::Dielectric(ior, albedo) => 0 < ior && fp_ok(ior as int) && color_ok(albedo),
    }
}

impl Material {
    /// The default surface: a fully rough diffuse gray.
    pub fn new() -> (m: Material)
        ensures
            m == Material::Diffuse(SCALE, (Color { r: 13107i64, g: 13107i64, b: 13107i64 })),
            material_ok(m),
    {
        Material::Diffuse(SCALE, Color::gray())
    }
}

/// The scattering interface a surface offers the integrator.
pub trait Shader {
    /// When a scatter query is meaningful for this surface.
    spec fn scatter_ok(&self, hit: Hit) -> bool;

    /// A new ray plus an attenuation, or absorption.
    fn scatter(&self, hit: Hit) -> Option<Bounce>
        requires
            self.scatter_ok(hit),
    ;
}

impl Shader for Material {
    open spec fn scatter_ok(&self, hit: Hit) -> bool {
        material_ok(*self) && hit_ok(hit) && square_length_s(hit.by.direction) >= 1
    }

    fn scatter(&self, hit: Hit) -> Option<Bounce> {
        Material::scatter(self, hit)
    }
}

/// Mirror reflection of `d` about `n`: `d - 2 * dot(d, n) * n`.
pub open spec fn reflect_s(d: Vector, n: Vector) -> Vector {
    v_sub_s(d, v_scale_s(n, fp_add_s(dot_s(d, n), dot_s(d, n))))
}

/// Snell refraction of the unit direction `d` through the surface with
/// normal `n` at refraction ratio `ratio`.
pub open spec fn refract_s(d: Vector, n: Vector, ratio: int) -> Vector {
    let cos_theta = clip_cos_s(dot_s(v_neg_s(d), n));
    let perp = v_scale_s(v_add_s(d, v_scale_s(n, cos_theta)), ratio);
    let k = fp_sub_s(SCALE as int, square_length_s(perp));
    let par = v_scale_s(n, -fp_sqrt_s(abs_plain_s(k)));
    v_add_s(perp, par)
}

/// Cosines are capped at one before refraction.
pub open spec fn clip_cos_s(c: int) -> int {
    if c > SCALE {
        SCALE as int
    } else {
        c
    }
}

pub open spec fn abs_plain_s(x: int) -> int {
    if x >= 0 {
        x
    } else {
        -x
    }
}

/// The refraction ratio a dielectric uses: `1 / ior` entering from the
/// front face, `ior` leaving from the back.
pub open spec fn refraction_ratio_s(ior: int, front: bool) -> int {
    if front {
        fp_div_s(SCALE as int, ior)
    } else {
        ior
    }
}

/// What a metal surface produces from the drawn perturbation `rnd`:
/// the mirror direction, roughened, or absorption when the scattered ray
/// would pass into the surface.
pub open spec fn metal_scatter_s(roughness: int, albedo: Color, hit: Hit, rnd: Vector) -> Option<
    Bounce,
> {
    let reflected = reflect_s(unit_s(hit.by.direction), hit.normal);
    let direction = if roughness != 0 {
        v_add_s(v_scale_s(rnd, roughness), reflected)
    } else {
        reflected
    };
    if dot_s(direction, hit.normal) > 0 {
        Some(
            Bounce {
                ray: Ray { origin: hit.pos, direction },
                attenuation: albedo,
            },
        )
    } else {
        None
    }
}

/// What a diffuse surface produces from the drawn hemisphere sample `rnd`:
/// the normal plus the scaled sample, or the normal alone when that sum is
/// degenerate.
pub open spec fn diffuse_scatter_s(roughness: int, albedo: Color, hit: Hit, rnd: Vector) -> Bounce {
    let direction = v_add_s(hit.normal, v_scale_s(rnd, roughness));
    let chosen = if square_length_s(direction) == 0 {
        hit.normal
    } else {
        direction
    };
    Bounce { ray: Ray { origin: hit.pos, direction: chosen }, attenuation: albedo }
}

/// What a dielectric surface produces: always a single refracted ray.
pub open spec fn dielectric_scatter_s(ior: int, albedo: Color, hit: Hit) -> Bounce {
    let direction = refract_s(
        unit_s(hit.by.direction),
        hit.normal,
        refraction_ratio_s(ior, hit.front),
    );
    Bounce { ray: Ray { origin: hit.pos, direction }, attenuation: albedo }
}

/// What any surface produces from the drawn vector `rnd`.
pub open spec fn scatter_outcome_s(m: Material, hit: Hit, rnd: Vector) -> Option<Bounce> {
    match m {
        Material::Metal(roughness, albedo) => metal_scatter_s(roughness as int, albedo, hit, rnd),
        Material::Diffuse(roughness, albedo) => Some(
            diffuse_scatter_s(roughness as int, albedo, hit, rnd),
        ),
        Material::Dielectric(ior, albedo) => Some(dielectric_scatter_s(ior as int, albedo, hit)),
    }
}

impl Material {
    /// Scatter the incoming ray recorded in `hit`: a new ray plus an
    /// attenuation, or absorption.
    pub fn scatter(&self, hit: Hit) -> (b: Option<Bounce>)
        requires
            material_ok(*self),
            hit_ok(hit),
            square_length_s(hit.by.direction) >= 1,
        ensures
            b is Some ==> ray_ok(b->0.ray) && color_ok(b->0.attenuation),
            exists|rnd: Vector|
                {
                    &&& vec_ok(rnd)
                    &&& square_length_s(rnd) <= SCALE as int
                    &&& b == #[trigger] scatter_outcome_s(*self, hit, rnd)
                },
            match *self {
                Material::Metal(roughness, albedo) => {
                    &&& exists|rnd: Vector|
                        {
                            &&& vec_ok(rnd)
                            &&& square_length_s(rnd) <= SCALE as int
                            &&& b == metal_scatter_s(roughness as int, albedo, hit, rnd)
                        }
                    &&& (roughness == 0 && b is Some ==> b->0.ray.direction == reflect_s(
                        unit_s(hit.by.direction),
                        hit.normal,
                    ))
                    &&& (b is Some ==> b->0.attenuation == albedo && b->0.ray.origin == hit.pos)
                },
                Material::Diffuse(roughness, albedo) => {
                    &&& exists|rnd: Vector|
                        {
                            &&& vec_ok(rnd)
                            &&& square_length_s(rnd) <= SCALE as int
                            &&& b == Some(diffuse_scatter_s(roughness as int, albedo, hit, rnd))
                        }
                    &&& b is Some
                    &&& b->0.attenuation == albedo
                    &&& b->0.ray.origin == hit.pos
                },
                Material::Dielectric(ior, albedo) => {
                    &&& b == Some(dielectric_scatter_s(ior as int, albedo, hit))
                    &&& b->0.attenuation == albedo
                    &&& b->0.ray.origin == hit.pos
                    &&& b->0.ray.direction == refract_s(
                        unit_s(hit.by.direction),
                        hit.normal,
                        refraction_ratio_s(ior as int, hit.front),
                    )
                },
            },
    {
        match self {
            Material::Metal(roughness, color) => {
                let d = hit.by.direction.unit();
                let dn = d.dot(&hit.normal);
                let reflected = d.sub(&hit.normal.scale(fp_add(dn, dn)));
                let ghost mut drawn: Vector = (Vector { x: 0i64, y: 0i64, z: 0i64 });
                let rough_reflected = if *roughness != 0 {
                    let random = Vector::random();
                    proof {
                        drawn = random;
                    }
                    random.scale(*roughness).add(&reflected)
                } else {
                    reflected
                };
                let ray = Ray::new(hit.pos, rough_reflected);
                let attenuation = *color;
                let out: Option<Bounce> = if ray.direction.dot(&hit.normal) > 0 {
                    Some(Bounce { ray, attenuation })
                } else {
                    None
                };
                proof {
                    assert(vec_ok(drawn));
                    assert(square_length_s(drawn) <= SCALE as int);
                    assert(out == metal_scatter_s(*roughness as int, *color, hit, drawn));
                    assert(out == scatter_outcome_s(*self, hit, drawn));
                }
                out
            },
            Material::Diffuse(roughness, color) => {
                let random = Vector::random();
                let ghost drawn = random;
                let mut scatter_direction = hit.normal.add(&random.scale(*roughness));
                if scatter_direction.square_length() == 0 {
                    scatter_direction = hit.normal;
                }
                let ray = Ray::new(hit.pos, scatter_direction);
                let attenuation = *color;
                let out = Some(Bounce { ray, attenuation });
                proof {
                    assert(out == Some(
                        diffuse_scatter_s(*roughness as int, *color, hit, drawn),
                    ));
                    assert(out == scatter_outcome_s(*self, hit, drawn));
                }
                out
            },
            Material::Dielectric(ior, color) => {
                let attenuation = *color;
                let refraction_ratio = if hit.front {
                    fp_div(SCALE, *ior)
                } else {
                    *ior
                };
                let direction = hit.by.direction.unit();
                let refracted = Self::refract(&direction, &hit.normal, refraction_ratio);
                let ray = Ray::new(hit.pos, refracted);
                let out = Some(Bounce { ray, attenuation });
                proof {
                    let still = Vector { x: 0i64, y: 0i64, z: 0i64 };
                    assert(vec_ok(still));
                    assert(square_length_s(still) <= SCALE as int);
                    assert(out == scatter_outcome_s(*self, hit, still));
                }
                out
            },
        }
    }

    /// Snell refraction of the unit direction `d` about the normal `n`.
    fn refract(d: &Vector, n: &Vector, ratio: i64) -> (r: Vector)
        requires
            vec_ok(*d),
            vec_ok(*n),
            fp_ok(ratio as int),
        ensures
            r == refract_s(*d, *n, ratio as int),
            vec_ok(r),
    {
        let mut cos_theta = d.neg().dot(n);
        if cos_theta > SCALE {
            cos_theta = SCALE;
        }
        let perp = d.add(&n.scale(cos_theta)).scale(ratio);
        let k = fp_sub(SCALE, perp.square_length());
        let mag = if k >= 0 {
            k
        } else {
            -k
        };
        let par = n.scale(-fp_sqrt(mag));
        perp.add(&par)
    }
}

} // verus!
