//! Vector, color and sample-accumulator algebra over fixed-point scalars.
use vstd::prelude::*;

use crate::fixed::{
    abs_s, fp_add, fp_add_s, fp_div, fp_div_s, fp_mul, fp_mul_s, fp_neg, fp_ok, fp_sqrt, fp_sqrt_s,
    fp_sub, fp_sub_s, is_isqrt, lemma_mul_sign_abs, lemma_sqrt_exists, FP_MAX, SCALE,
};

verus! {

/// One half, in fixed-point units.
pub const HALF: i64 = 32768;

/// Relies on rand::random: draws a fresh sample of the `Standard`
/// distribution; nothing is promised of the value drawn.
pub assume_specification<T>[ rand::random::<T> ]() -> (r: T)
    where
        rand::distributions::Standard: rand::distributions::Distribution<T>,
;

/// One fixed-point value drawn from `[0, 1]`.
pub fn rand_unit() -> (r: i64)
    ensures
        0 <= r as int <= SCALE as int,
{
    let raw: u32 = rand::random::<u32>();
    (raw % 65537) as i64
}

/// One fixed-point value drawn from `[-1, 1]`.
pub fn rand_symmetric() -> (r: i64)
    ensures
        -(SCALE as int) <= r as int <= SCALE as int,
{
    let raw: u32 = rand::random::<u32>();
    let m: i64 = (raw % 131073) as i64;
    m - SCALE
}

/// a three dimensional value
#[derive(Copy, Clone, Debug, PartialEq, Eq, Structural)]
pub struct Vector {
    pub x: i64,
    pub y: i64,
    pub z: i64,
}

/// RGB color, in linear space with fixed-point channels (one unit per `SCALE`)
#[derive(Copy, Clone, Debug, PartialEq, Eq, Structural)]
pub struct Color {
    pub r: i64,
    pub g: i64,
    pub b: i64,
}

/// a group of RGB color samples
#[derive(Copy, Clone, Debug, PartialEq, Eq, Structural)]
pub struct Samples {
    pub r: i64,
    pub g: i64,
    pub b: i64,
    pub count: u32,
}

pub open spec fn vec_ok(v: Vector) -> bool {
    fp_ok(v.x as int) && fp_ok(v.y as int) && fp_ok(v.z as int)
}

pub open spec fn color_ok(c: Color) -> bool {
    fp_ok(c.r as int) && fp_ok(c.g as int) && fp_ok(c.b as int)
}

pub open spec fn v_add_s(a: Vector, b: Vector) -> Vector {
    Vector {
        x: fp_add_s(a.x as int, b.x as int) as i64,
        y: fp_add_s(a.y as int, b.y as int) as i64,
        z: fp_add_s(a.z as int, b.z as int) as i64,
    }
}

pub open spec fn v_sub_s(a: Vector, b: Vector) -> Vector {
    Vector {
        x: fp_sub_s(a.x as int, b.x as int) as i64,
        y: fp_sub_s(a.y as int, b.y as int) as i64,
        z: fp_sub_s(a.z as int, b.z as int) as i64,
    }
}

pub open spec fn v_neg_s(a: Vector) -> Vector {
    Vector { x: (-(a.x as int)) as i64, y: (-(a.y as int)) as i64, z: (-(a.z as int)) as i64 }
}

pub open spec fn v_mul_s(a: Vector, b: Vector) -> Vector {
    Vector {
        x: fp_mul_s(a.x as int, b.x as int) as i64,
        y: fp_mul_s(a.y as int, b.y as int) as i64,
        z: fp_mul_s(a.z as int, b.z as int) as i64,
    }
}

pub open spec fn v_scale_s(a: Vector, k: int) -> Vector {
    Vector {
        x: fp_mul_s(a.x as int, k) as i64,
        y: fp_mul_s(a.y as int, k) as i64,
        z: fp_mul_s(a.z as int, k) as i64,
    }
}

pub open spec fn v_div_scalar_s(a: Vector, k: int) -> Vector {
    Vector {
        x: fp_div_s(a.x as int, k) as i64,
        y: fp_div_s(a.y as int, k) as i64,
        z: fp_div_s(a.z as int, k) as i64,
    }
}

pub open spec fn dot_s(a: Vector, b: Vector) -> int {
    fp_add_s(
        fp_add_s(fp_mul_s(a.x as int, b.x as int), fp_mul_s(a.y as int, b.y as int)),
        fp_mul_s(a.z as int, b.z as int),
    )
}

pub open spec fn square_length_s(v: Vector) -> int {
    dot_s(v, v)
}

pub open spec fn length_s(v: Vector) -> int {
    fp_sqrt_s(square_length_s(v))
}

pub open spec fn unit_s(v: Vector) -> Vector {
    v_div_scalar_s(v, length_s(v))
}

/// Negating one argument negates a dot product.
pub proof fn lemma_dot_neg(a: Vector, b: Vector)
    requires
        vec_ok(a),
        vec_ok(b),
    ensures
        dot_s(a, v_neg_s(b)) == -dot_s(a, b),
{
    assert((a.x as int) * (-(b.x as int)) == -((a.x as int) * (b.x as int))) by (nonlinear_arith);
    assert((a.y as int) * (-(b.y as int)) == -((a.y as int) * (b.y as int))) by (nonlinear_arith);
    assert((a.z as int) * (-(b.z as int)) == -((a.z as int) * (b.z as int))) by (nonlinear_arith);
}

/// A vector's squared length is never negative.
pub proof fn lemma_square_length_nonneg(v: Vector)
    ensures
        square_length_s(v) >= 0,
{
    assert((v.x as int) * (v.x as int) >= 0) by (nonlinear_arith);
    assert((v.y as int) * (v.y as int) >= 0) by (nonlinear_arith);
    assert((v.z as int) * (v.z as int) >= 0) by (nonlinear_arith);
}

/// A positive scalar has a positive fixed-point square root.
pub proof fn lemma_sqrt_pos(x: int)
    requires
        x >= 1,
    ensures
        fp_sqrt_s(x) >= 1,
{
    lemma_sqrt_exists(x * SCALE);
    let r = fp_sqrt_s(x);
    if r < 1 {
        assert(is_isqrt(r, x * SCALE));
        assert(r == 0);
        assert(x * SCALE < 1);
    }
}

impl Vector {
    pub fn new(x: i64, y: i64, z: i64) -> (v: Vector)
        requires
            fp_ok(x as int),
            fp_ok(y as int),
            fp_ok(z as int),
        ensures
            v == (Vector { x, y, z }),
    {
        Vector { x, y, z }
    }

    pub fn origin() -> (v: Vector)
        ensures
            v == (Vector { x: 0i64, y: 0i64, z: 0i64 }),
    {
        Vector { x: 0, y: 0, z: 0 }
    }

    pub fn add(&self, rhs: &Vector) -> (r: Vector)
        requires
            vec_ok(*self),
            vec_ok(*rhs),
        ensures
            r == v_add_s(*self, *rhs),
            vec_ok(r),
    {
        Vector {
            x: fp_add(self.x, rhs.x),
            y: fp_add(self.y, rhs.y),
            z: fp_add(self.z, rhs.z),
        }
    }

    pub fn sub(&self, rhs: &Vector) -> (r: Vector)
        requires
            vec_ok(*self),
            vec_ok(*rhs),
        ensures
            r == v_sub_s(*self, *rhs),
            vec_ok(r),
    {
        Vector {
            x: fp_sub(self.x, rhs.x),
            y: fp_sub(self.y, rhs.y),
            z: fp_sub(self.z, rhs.z),
        }
    }

    pub fn neg(&self) -> (r: Vector)
        requires
            vec_ok(*self),
        ensures
            r == v_neg_s(*self),
            vec_ok(r),
    {
        Vector { x: fp_neg(self.x), y: fp_neg(self.y), z: fp_neg(self.z) }
    }

    /// Component-wise product.
    pub fn mul(&self, rhs: &Vector) -> (r: Vector)
        requires
            vec_ok(*self),
            vec_ok(*rhs),
        ensures
            r == v_mul_s(*self, *rhs),
            vec_ok(r),
    {
        Vector {
            x: fp_mul(self.x, rhs.x),
            y: fp_mul(self.y, rhs.y),
            z: fp_mul(self.z, rhs.z),
        }
    }

    /// Product with a scalar.
    pub fn scale(&self, k: i64) -> (r: Vector)
        requires
            vec_ok(*self),
            fp_ok(k as int),
        ensures
            r == v_scale_s(*self, k as int),
            vec_ok(r),
    {
        Vector { x: fp_mul(self.x, k), y: fp_mul(self.y, k), z: fp_mul(self.z, k) }
    }

    /// Quotient by a positive scalar.
    pub fn div(&self, k: i64) -> (r: Vector)
        requires
            vec_ok(*self),
            0 < k,
            fp_ok(k as int),
        ensures
            r == v_div_scalar_s(*self, k as int),
            vec_ok(r),
    {
        Vector { x: fp_div(self.x, k), y: fp_div(self.y, k), z: fp_div(self.z, k) }
    }

    pub fn dot(&self, rhs: &Vector) -> (r: i64)
        requires
            vec_ok(*self),
            vec_ok(*rhs),
        ensures
            r as int == dot_s(*self, *rhs),
            fp_ok(r as int),
    {
        let xx = fp_mul(self.x, rhs.x);
        let yy = fp_mul(self.y, rhs.y);
        let zz = fp_mul(self.z, rhs.z);
        fp_add(fp_add(xx, yy), zz)
    }

    pub fn square_length(&self) -> (r: i64)
        requires
            vec_ok(*self),
        ensures
            r as int == square_length_s(*self),
            0 <= r as int,
            fp_ok(r as int),
    {
        proof {
            lemma_square_length_nonneg(*self);
        }
        self.dot(self)
    }

    pub fn length(&self) -> (r: i64)
        requires
            vec_ok(*self),
        ensures
            r as int == length_s(*self),
            0 <= r as int,
            fp_ok(r as int),
    {
        let sq = self.square_length();
        fp_sqrt(sq)
    }

    /// The same direction scaled to length one; callers keep the input away
    /// from zero, as a zero-length vector has no direction.
    pub fn unit(&self) -> (r: Vector)
        requires
            vec_ok(*self),
            square_length_s(*self) >= 1,
        ensures
            r == unit_s(*self),
            vec_ok(r),
    {
        let len = self.length();
        proof {
            lemma_sqrt_pos(square_length_s(*self));
        }
        self.div(len)
    }

    /// produces a new random vector inside or on the unit sphere,
    /// by rejection sampling with a bounded number of draws (the center
    /// stands in if every draw lands outside)
    pub fn random() -> (v: Vector)
        ensures
            vec_ok(v),
            abs_s(v.x as int) <= SCALE as int,
            abs_s(v.y as int) <= SCALE as int,
            abs_s(v.z as int) <= SCALE as int,
            0 <= square_length_s(v) <= SCALE as int,
    {
        let mut result: Vector = Vector { x: 0, y: 0, z: 0 };
        let mut accepted: bool = false;
        let mut tries: u8 = 0;
        proof {
            lemma_square_length_nonneg(result);
        }
        while !accepted && tries < 16
            invariant
                tries <= 16,
                vec_ok(result),
                abs_s(result.x as int) <= SCALE as int,
                abs_s(result.y as int) <= SCALE as int,
                abs_s(result.z as int) <= SCALE as int,
                0 <= square_length_s(result) <= SCALE as int,
            decreases 16 - tries,
        {
            let x = rand_symmetric();
            let y = rand_symmetric();
            let z = rand_symmetric();
            let candidate = Vector { x, y, z };
            proof {
                lemma_square_length_nonneg(candidate);
            }
            let sq = candidate.square_length();
            if sq <= SCALE {
                result = candidate;
                accepted = true;
            }
            tries = tries + 1;
        }
        result
    }

    pub fn non_zero(&self) -> (r: bool)
        ensures
            r == (self.x != 0 && self.y != 0 && self.z != 0),
    {
        self.x != 0 && self.y != 0 && self.z != 0
    }

    pub fn is_unit(&self) -> (r: bool)
        requires
            vec_ok(*self),
        ensures
            r == (square_length_s(*self) == SCALE as int),
    {
        self.square_length() == SCALE
    }

    /// Maps each component from `[-1, 1]` to a color channel in `[0, 1]`.
    pub fn as_color(&self) -> (c: Color)
        requires
            vec_ok(*self),
        ensures
            c == (Color {
                r: fp_mul_s(fp_add_s(self.x as int, SCALE as int), HALF as int) as i64,
                g: fp_mul_s(fp_add_s(self.y as int, SCALE as int), HALF as int) as i64,
                b: fp_mul_s(fp_add_s(self.z as int, SCALE as int), HALF as int) as i64,
            }),
            color_ok(c),
    {
        Color {
            r: fp_mul(fp_add(self.x, SCALE), HALF),
            g: fp_mul(fp_add(self.y, SCALE), HALF),
            b: fp_mul(fp_add(self.z, SCALE), HALF),
        }
    }
}

pub open spec fn c_add_s(a: Color, b: Color) -> Color {
    Color {
        r: fp_add_s(a.r as int, b.r as int) as i64,
        g: fp_add_s(a.g as int, b.g as int) as i64,
        b: fp_add_s(a.b as int, b.b as int) as i64,
    }
}

pub open spec fn c_mul_s(a: Color, b: Color) -> Color {
    Color {
        r: fp_mul_s(a.r as int, b.r as int) as i64,
        g: fp_mul_s(a.g as int, b.g as int) as i64,
        b: fp_mul_s(a.b as int, b.b as int) as i64,
    }
}

pub open spec fn c_scale_s(a: Color, k: int) -> Color {
    Color {
        r: fp_mul_s(a.r as int, k) as i64,
        g: fp_mul_s(a.g as int, k) as i64,
        b: fp_mul_s(a.b as int, k) as i64,
    }
}

/// Linear interpolation `a * (1 - t) + b * t`.
pub open spec fn blend_s(a: Color, b: Color, t: int) -> Color {
    c_add_s(c_scale_s(a, fp_sub_s(SCALE as int, t)), c_scale_s(b, t))
}

/// One display channel: gamma-corrected by square root, scaled to 8 bits and
/// clamped into `[0, 255]` (negative radiance reads as zero).
pub open spec fn pixel_channel_s(c: int) -> int {
    let lin = if c >= 0 {
        c
    } else {
        0
    };
    let root = fp_sqrt_s(lin);
    let v = root / 256;
    if v > 255 {
        255
    } else {
        v
    }
}

impl Color {
    pub fn new(r: i64, g: i64, b: i64) -> (c: Color)
        requires
            fp_ok(r as int),
            fp_ok(g as int),
            fp_ok(b as int),
        ensures
            c == (Color { r, g, b }),
    {
        Color { r, g, b }
    }

    pub fn white() -> (c: Color)
        ensures
            c == (Color { r: SCALE, g: SCALE, b: SCALE }),
    {
        Color { r: SCALE, g: SCALE, b: SCALE }
    }

    pub fn black() -> (c: Color)
        ensures
            c == (Color { r: 0i64, g: 0i64, b: 0i64 }),
    {
        Color { r: 0, g: 0, b: 0 }
    }

    pub fn gray() -> (c: Color)
        ensures
            c == (Color { r: 13107i64, g: 13107i64, b: 13107i64 }),
    {
        Color { r: 13107, g: 13107, b: 13107 }
    }

    /// The sky tone the background gradient blends toward.
    pub fn grade() -> (c: Color)
        ensures
            c == (Color { r: HALF, g: 45875i64, b: SCALE }),
    {
        Color { r: HALF, g: 45875, b: SCALE }
    }

    pub fn red() -> (c: Color)
        ensures
            c == (Color { r: SCALE, g: 0i64, b: 0i64 }),
    {
        Color { r: SCALE, g: 0, b: 0 }
    }

    pub fn green() -> (c: Color)
        ensures
            c == (Color { r: 0i64, g: SCALE, b: 0i64 }),
    {
        Color { r: 0, g: SCALE, b: 0 }
    }

    pub fn blue() -> (c: Color)
        ensures
            c == (Color { r: 0i64, g: 0i64, b: SCALE }),
    {
        Color { r: 0, g: 0, b: SCALE }
    }

    pub fn add(&self, rhs: &Color) -> (r: Color)
        requires
            color_ok(*self),
            color_ok(*rhs),
        ensures
            r == c_add_s(*self, *rhs),
            color_ok(r),
    {
        Color {
            r: fp_add(self.r, rhs.r),
            g: fp_add(self.g, rhs.g),
            b: fp_add(self.b, rhs.b),
        }
    }

    /// Component-wise product: attenuation of one color by another.
    pub fn mul(&self, rhs: &Color) -> (r: Color)
        requires
            color_ok(*self),
            color_ok(*rhs),
        ensures
            r == c_mul_s(*self, *rhs),
            color_ok(r),
    {
        Color {
            r: fp_mul(self.r, rhs.r),
            g: fp_mul(self.g, rhs.g),
            b: fp_mul(self.b, rhs.b),
        }
    }

    /// Product with a scalar.
    pub fn scale(&self, k: i64) -> (r: Color)
        requires
            color_ok(*self),
            fp_ok(k as int),
        ensures
            r == c_scale_s(*self, k as int),
            color_ok(r),
    {
        Color { r: fp_mul(self.r, k), g: fp_mul(self.g, k), b: fp_mul(self.b, k) }
    }

    /// Linear interpolation from `a` (at `t == 0`) to `b` (at `t == SCALE`).
    pub fn blend(a: Color, b: Color, t: i64) -> (r: Color)
        requires
            color_ok(a),
            color_ok(b),
            fp_ok(t as int),
        ensures
            r == blend_s(a, b, t as int),
            color_ok(r),
    {
        let wa = a.scale(fp_sub(SCALE, t));
        let wb = b.scale(t);
        wa.add(&wb)
    }

    /// converts this (linear) color to a (gamma-corrected) pixel value
    /// with 8-bit channels (0-255)
    pub fn to_pixel(&self) -> (p: crate::image::Pixel)
        requires
            color_ok(*self),
        ensures
            p.r as int == pixel_channel_s(self.r as int),
            p.g as int == pixel_channel_s(self.g as int),
            p.b as int == pixel_channel_s(self.b as int),
    {
        crate::image::Pixel::new(
            Self::channel_to_byte(self.r),
            Self::channel_to_byte(self.g),
            Self::channel_to_byte(self.b),
        )
    }

    fn channel_to_byte(c: i64) -> (v: u8)
        requires
            fp_ok(c as int),
        ensures
            v as int == pixel_channel_s(c as int),
    {
        let lin: i64 = if c >= 0 {
            c
        } else {
            0
        };
        let root = fp_sqrt(lin);
        let wide: u64 = (root as u64) / 256;
        if wide > 255 {
            255
        } else {
            wide as u8
        }
    }

    pub fn sample(&self) -> (s: Samples)
        ensures
            s == (Samples { r: self.r, g: self.g, b: self.b, count: 1u32 }),
    {
        Samples { r: self.r, g: self.g, b: self.b, count: 1 }
    }
}

/// Merging two sample groups: channel sums saturate at the representable
/// range, the count saturates at `u32::MAX`.
pub open spec fn samples_add_s(a: Samples, b: Samples) -> Samples {
    Samples {
        r: fp_add_s(a.r as int, b.r as int) as i64,
        g: fp_add_s(a.g as int, b.g as int) as i64,
        b: fp_add_s(a.b as int, b.b as int) as i64,
        count: if a.count + b.count > u32::MAX {
            u32::MAX
        } else {
            (a.count + b.count) as u32
        },
    }
}

pub open spec fn samples_ok(s: Samples) -> bool {
    fp_ok(s.r as int) && fp_ok(s.g as int) && fp_ok(s.b as int)
}

/// The mean color of a group: each channel sum divided by the count.
pub open spec fn samples_mean_s(s: Samples) -> Color {
    Color {
        r: crate::fixed::trunc_div(s.r as int, s.count as int) as i64,
        g: crate::fixed::trunc_div(s.g as int, s.count as int) as i64,
        b: crate::fixed::trunc_div(s.b as int, s.count as int) as i64,
    }
}

/// Sample accumulation is associative and commutative for groups of
/// nonnegative radiance whose channel totals and counts stay representable,
/// so partial sums from any partition of the samples merge to the same
/// totals, and hence to the same mean.
pub proof fn lemma_samples_merge(a: Samples, b: Samples, c: Samples)
    requires
        0 <= a.r && 0 <= a.g && 0 <= a.b,
        0 <= b.r && 0 <= b.g && 0 <= b.b,
        0 <= c.r && 0 <= c.g && 0 <= c.b,
        a.r + b.r + c.r <= FP_MAX as int,
        a.g + b.g + c.g <= FP_MAX as int,
        a.b + b.b + c.b <= FP_MAX as int,
        a.count + b.count + c.count <= u32::MAX,
    ensures
        samples_add_s(a, b) == samples_add_s(b, a),
        samples_add_s(samples_add_s(a, b), c) == samples_add_s(a, samples_add_s(b, c)),
{
}

impl Samples {
    pub fn none() -> (s: Samples)
        ensures
            s == (Samples { r: 0i64, g: 0i64, b: 0i64, count: 0u32 }),
    {
        Samples { r: 0, g: 0, b: 0, count: 0 }
    }

    pub fn from_color(color: Color) -> (s: Samples)
        ensures
            s == (Samples { r: color.r, g: color.g, b: color.b, count: 1u32 }),
    {
        Samples { r: color.r, g: color.g, b: color.b, count: 1 }
    }

    pub fn add(self, rhs: Samples) -> (s: Samples)
        requires
            samples_ok(self),
            samples_ok(rhs),
        ensures
            s == samples_add_s(self, rhs),
            samples_ok(s),
    {
        let count: u32 = if u32::MAX - self.count < rhs.count {
            u32::MAX
        } else {
            self.count + rhs.count
        };
        Samples {
            r: fp_add(self.r, rhs.r),
            g: fp_add(self.g, rhs.g),
            b: fp_add(self.b, rhs.b),
            count,
        }
    }

    pub fn to_color(&self) -> (c: Color)
        requires
            samples_ok(*self),
            self.count >= 1,
        ensures
            c == samples_mean_s(*self),
            color_ok(c),
    {
        Color {
            r: Self::div_count(self.r, self.count),
            g: Self::div_count(self.g, self.count),
            b: Self::div_count(self.b, self.count),
        }
    }

    fn div_count(sum: i64, count: u32) -> (r: i64)
        requires
            fp_ok(sum as int),
            count >= 1,
        ensures
            r as int == crate::fixed::trunc_div(sum as int, count as int),
            fp_ok(r as int),
    {
        let neg: bool = sum < 0;
        let mag: u64 = if sum >= 0 {
            sum as u64
        } else {
            (-sum) as u64
        };
        let q: u64 = mag / (count as u64);
        if neg {
            -(q as i64)
        } else {
            q as i64
        }
    }
}

} // verus!
