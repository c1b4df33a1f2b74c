//! The camera: maps pixel coordinates plus anti-aliasing jitter to primary
//! rays through a view plane one focal length in front of the eye.
use vstd::prelude::*;

use crate::fixed::{fp_add, fp_add_s, fp_div, fp_div_s, fp_ok, SCALE};
use crate::numbers::{
    rand_unit, v_add_s, v_div_scalar_s, v_scale_s, v_sub_s, vec_ok, Vector,
};
use crate::ray::{ray_ok, Ray};

verus! {

/// Largest accepted pixel-grid side, so view-plane arithmetic stays exact.
pub const MAX_GRID: usize = 100000;

pub struct Camera {
    pub pos: Vector,
    pub aim: Vector,
    pub width: i64,
    pub height: i64,
    pub focal: i64,
}

/// A one-shot cursor over the pixel grid, yielding the sample rays of one
/// pixel per step, in row-major order from the top row down.
pub struct RayIter {
    pub pos: Vector,
    pub pixel_width: usize,
    pub pixel_height: usize,
    pub horizontal: Vector,
    pub vertical: Vector,
    pub llc: Vector,
    pub i: usize,
    pub j: usize,
    pub samples: usize,
}

/// Screen coordinates of a pixel, each in `[0, 1]`.
pub struct Uv {
    pub u: i64,
    pub v: i64,
}

pub open spec fn camera_ok(c: Camera) -> bool {
    vec_ok(c.pos) && vec_ok(c.aim) && fp_ok(c.width as int) && fp_ok(c.height as int) && fp_ok(
        c.focal as int,
    )
}

pub open spec fn ray_iter_ok(it: RayIter) -> bool {
    &&& vec_ok(it.pos)
    &&& vec_ok(it.horizontal)
    &&& vec_ok(it.vertical)
    &&& vec_ok(it.llc)
    &&& 2 <= it.pixel_width <= MAX_GRID
    &&& 2 <= it.pixel_height <= MAX_GRID
}

/// The ray for screen position `(u, v)` jittered by `(ru, rv)`: from the
/// eye through the view plane spanned from its lower-left corner.
pub open spec fn sample_ray_s(it: RayIter, u: int, v: int, ru: int, rv: int) -> Ray {
    let du = v_scale_s(it.horizontal, fp_add_s(u, ru));
    let dv = v_scale_s(it.vertical, fp_add_s(v, rv));
    Ray { origin: it.pos, direction: v_sub_s(v_add_s(v_add_s(it.llc, du), dv), it.pos) }
}

/// `r` is a valid sample ray for pixel coordinates `(u, v)` of the cursor:
/// some jitter of at most one pixel footprint produced it.
pub open spec fn ray_is_sample(r: Ray, it: RayIter, u: int, v: int) -> bool {
    exists|ju: int, jv: int|
        #![trigger fp_div_s(ju, (it.pixel_width - 1) * SCALE), fp_div_s(jv, (it.pixel_height - 1) * SCALE)]
        {
            &&& 0 <= ju <= SCALE as int
            &&& 0 <= jv <= SCALE as int
            &&& r == sample_ray_s(
                it,
                u,
                v,
                fp_div_s(ju, (it.pixel_width - 1) * SCALE),
                fp_div_s(jv, (it.pixel_height - 1) * SCALE),
            )
        }
}

/// The `u` screen coordinate of pixel column `i`.
pub open spec fn pixel_u_s(it: RayIter, i: int) -> int {
    fp_div_s(i * SCALE, (it.pixel_width - 1) * SCALE)
}

/// The `v` screen coordinate of pixel row `j` (row zero at the top).
pub open spec fn pixel_v_s(it: RayIter, j: int) -> int {
    fp_div_s((it.pixel_height - j) * SCALE, (it.pixel_height - 1) * SCALE)
}

fn int_to_fp(n: usize) -> (r: i64)
    requires
        n <= MAX_GRID,
    ensures
        r as int == n * SCALE,
        fp_ok(r as int),
{
    (n as i64) * SCALE
}

impl Camera {
    pub fn new(width: i64, height: i64) -> (c: Camera)
        requires
            fp_ok(width as int),
            fp_ok(height as int),
        ensures
            c == (Camera {
                pos: Vector { x: 0i64, y: 0i64, z: 0i64 },
                aim: Vector { x: 0i64, y: 0i64, z: (-SCALE) as i64 },
                width,
                height,
                focal: SCALE,
            }),
            camera_ok(c),
    {
        Camera {
            pos: Vector::new(0, 0, 0),
            aim: Vector::new(0, 0, -SCALE),
            width,
            height,
            focal: SCALE,
        }
    }

    /// The sample-ray cursor over a `width x height` pixel grid, with the
    /// view plane centered one focal length along the aim.
    pub fn rays(&self, width: usize, height: usize, samples: usize) -> (it: RayIter)
        requires
            camera_ok(*self),
            2 <= width <= MAX_GRID,
            2 <= height <= MAX_GRID,
        ensures
            it.pos == self.pos,
            it.pixel_width == width,
            it.pixel_height == height,
            it.samples == samples,
            it.i == 0,
            it.j == 0,
            it.horizontal == (Vector { x: self.width, y: 0i64, z: 0i64 }),
            it.vertical == (Vector { x: 0i64, y: self.height, z: 0i64 }),
            it.llc == v_sub_s(
                v_sub_s(
                    v_sub_s(self.pos, v_div_scalar_s(it.horizontal, 2 * SCALE)),
                    v_div_scalar_s(it.vertical, 2 * SCALE),
                ),
                (Vector { x: 0i64, y: 0i64, z: self.focal }),
            ),
            ray_iter_ok(it),
    {
        let horizontal = Vector::new(self.width, 0, 0);
        let vertical = Vector::new(0, self.height, 0);
        let focal_vec = Vector::new(0, 0, self.focal);
        RayIter {
            pos: self.pos,
            pixel_width: width,
            pixel_height: height,
            horizontal,
            vertical,
            llc: self.pos.sub(&horizontal.div(2 * SCALE)).sub(&vertical.div(2 * SCALE)).sub(
                &focal_vec,
            ),
            i: 0,
            j: 0,
            samples,
        }
    }
}

impl RayIter {
    /// The next pixel's screen coordinates and jittered sample rays, or
    /// nothing once the cursor has walked the whole grid.
    pub fn next(&mut self) -> (r: Option<(Uv, Vec<Ray>)>)
        requires
            ray_iter_ok(*old(self)),
        ensures
            ray_iter_ok(*final(self)),
            old(self).i >= old(self).pixel_width || old(self).j >= old(self).pixel_height ==> r
                is None && *final(self) == *old(self),
            old(self).i < old(self).pixel_width && old(self).j < old(self).pixel_height ==> {
                &&& r is Some
                &&& {
                    let pair = r->0;
                    &&& pair.0.u as int == pixel_u_s(*old(self), old(self).i as int)
                    &&& pair.0.v as int == pixel_v_s(*old(self), old(self).j as int)
                    &&& pair.1@.len() == old(self).samples
                    &&& forall|m: int|
                        0 <= m < pair.1@.len() ==> ray_is_sample(
                            #[trigger] pair.1@[m],
                            *old(self),
                            pair.0.u as int,
                            pair.0.v as int,
                        )
                    &&& forall|m: int|
                        0 <= m < pair.1@.len() ==> (#[trigger] pair.1@[m]).origin == old(self).pos
                            && ray_ok(pair.1@[m])
                }
                &&& final(self).pos == old(self).pos
                &&& final(self).pixel_width == old(self).pixel_width
                &&& final(self).pixel_height == old(self).pixel_height
                &&& final(self).horizontal == old(self).horizontal
                &&& final(self).vertical == old(self).vertical
                &&& final(self).llc == old(self).llc
                &&& final(self).samples == old(self).samples
                &&& (old(self).i + 1 < old(self).pixel_width ==> final(self).i == old(self).i + 1
                    && final(self).j == old(self).j)
                &&& (old(self).i + 1 >= old(self).pixel_width ==> final(self).i == 0
                    && final(self).j == old(self).j + 1)
            },
    {
        if self.i < self.pixel_width && self.j < self.pixel_height {
            let ghost snap = *self;
            let wb = int_to_fp(self.pixel_width - 1);
            let hb = int_to_fp(self.pixel_height - 1);
            let u = fp_div(int_to_fp(self.i), wb);
            let v = fp_div(int_to_fp(self.pixel_height - self.j), hb);
            let uv = Uv { u, v };
            let mut rays: Vec<Ray> = Vec::new();
            let mut k: usize = 0;
            while k < self.samples
                invariant
                    ray_iter_ok(*self),
                    *self == snap,
                    u as int == pixel_u_s(snap, snap.i as int),
                    v as int == pixel_v_s(snap, snap.j as int),
                    fp_ok(u as int),
                    fp_ok(v as int),
                    wb as int == (snap.pixel_width - 1) * SCALE,
                    hb as int == (snap.pixel_height - 1) * SCALE,
                    k == rays@.len(),
                    k <= snap.samples,
                    forall|m: int|
                        0 <= m < rays@.len() ==> ray_is_sample(
                            #[trigger] rays@[m],
                            snap,
                            u as int,
                            v as int,
                        ),
                    forall|m: int|
                        0 <= m < rays@.len() ==> (#[trigger] rays@[m]).origin == snap.pos && ray_ok(
                            rays@[m],
                        ),
                decreases self.samples - k,
            {
                let ju = rand_unit();
                let jv = rand_unit();
                let ru = fp_div(ju, wb);
                let rv = fp_div(jv, hb);
                let du = self.horizontal.scale(fp_add(u, ru));
                let dv = self.vertical.scale(fp_add(v, rv));
                let direction = self.llc.add(&du).add(&dv).sub(&self.pos);
                let ray = Ray::new(self.pos, direction);
                proof {
                    assert(ray == sample_ray_s(
                        snap,
                        u as int,
                        v as int,
                        fp_div_s(ju as int, (snap.pixel_width - 1) * SCALE),
                        fp_div_s(jv as int, (snap.pixel_height - 1) * SCALE),
                    ));
                    assert(ray_is_sample(ray, snap, u as int, v as int));
                }
                rays.push(ray);
                k = k + 1;
            }
            self.i = self.i + 1;
            if self.i >= self.pixel_width && self.j < self.pixel_height {
                self.j = self.j + 1;
                self.i = 0;
            }
            Some((uv, rays))
        } else {
            None
        }
    }
}

} // verus!
