//! Vector, color and accumulator algebra, in raw fixed-point units
//! (65536 per world unit).
use raytrace::fixed::SCALE;
use raytrace::numbers::{Color, Samples, Vector};

#[test]
fn test_vec_mul() {
    let a = Vector::new(SCALE, SCALE, SCALE);
    let b = Vector::new(2 * SCALE, SCALE, SCALE);
    let c = a.mul(&b);
    assert!(c.x == 2 * SCALE);
    assert!(c.y == SCALE);
    assert!(c.z == SCALE);
}

#[test]
fn test_pos_vec_sub() {
    let a = Vector::new(SCALE, SCALE, SCALE);
    let b = Vector::new(2 * SCALE, SCALE / 2, SCALE);
    let c = a.sub(&b);
    assert!(c.x == -SCALE);
    assert!(c.y == SCALE / 2);
    assert!(c.z == 0);
}

#[test]
fn test_vec_vec_sub() {
    let a = Vector::new(SCALE, SCALE, SCALE);
    let b = Vector::new(2 * SCALE, SCALE / 2, SCALE);
    let c = a.sub(&b);
    assert!(c.x == -SCALE);
    assert!(c.y == SCALE / 2);
    assert!(c.z == 0);
}

#[test]
fn test_dot_and_length() {
    let a = Vector::new(SCALE, 0, -SCALE);
    assert_eq!(a.dot(&a), 2 * SCALE);
    assert_eq!(a.square_length(), 2 * SCALE);
    // sqrt(2) in fixed point, truncated
    assert_eq!(a.length(), 92681);
    let u = a.unit();
    assert_eq!(u.x, 46341);
    assert_eq!(u.y, 0);
    assert_eq!(u.z, -46341);
}

#[test]
fn test_unit_is_unit_on_axis() {
    let a = Vector::new(0, 5 * SCALE, 0);
    let u = a.unit();
    assert_eq!(u.y, SCALE);
    assert!(u.is_unit());
}

#[test]
fn test_non_zero() {
    assert!(Vector::new(1, 2, 3).non_zero());
    assert!(!Vector::new(1, 0, 3).non_zero());
}

#[test]
fn test_as_color_maps_to_half() {
    let c = Vector::new(0, SCALE, -SCALE).as_color();
    assert_eq!(c.r, SCALE / 2);
    assert_eq!(c.g, SCALE);
    assert_eq!(c.b, 0);
}

#[test]
fn test_random_vector_in_unit_sphere() {
    let mut n: usize = 0;
    while n < 32 {
        let v = Vector::random();
        assert!(v.square_length() <= SCALE);
        assert!(v.x.abs() <= SCALE && v.y.abs() <= SCALE && v.z.abs() <= SCALE);
        n += 1;
    }
}

#[test]
fn test_color_blend_midpoint() {
    let c = Color::blend(Color::white(), Color::grade(), SCALE / 2);
    assert_eq!(c.r, 49152);
    assert_eq!(c.g, 55705);
    assert_eq!(c.b, SCALE);
}

#[test]
fn test_color_blend_endpoints() {
    let a = Color::new(100, 200, 300);
    let b = Color::new(400, 500, 600);
    let at_a = Color::blend(a, b, 0);
    assert_eq!((at_a.r, at_a.g, at_a.b), (100, 200, 300));
    let at_b = Color::blend(a, b, SCALE);
    assert_eq!((at_b.r, at_b.g, at_b.b), (400, 500, 600));
}

#[test]
fn test_color_mul_is_attenuation() {
    let c = Color::new(SCALE / 2, SCALE, 0).mul(&Color::new(SCALE, SCALE / 2, SCALE));
    assert_eq!((c.r, c.g, c.b), (SCALE / 2, SCALE / 2, 0));
}

#[test]
fn test_samples_mean_of_two() {
    let s = Color::new(2 * SCALE, 0, SCALE).sample().add(Color::new(0, SCALE, SCALE).sample());
    assert_eq!(s.count, 2);
    let mean = s.to_color();
    assert_eq!((mean.r, mean.g, mean.b), (SCALE, SCALE / 2, SCALE));
}

#[test]
fn test_samples_single() {
    let s = Samples::from_color(Color::new(123, 456, 789));
    assert_eq!(s.count, 1);
    let c = s.to_color();
    assert_eq!((c.r, c.g, c.b), (123, 456, 789));
}

/// Partitioning the same four samples into different groups gives the same
/// totals, and so exactly the same mean.
#[test]
fn test_accumulator_partition_independent() {
    let c1 = Color::new(100, 0, 50000);
    let c2 = Color::new(300, SCALE, 2);
    let c3 = Color::new(7, 9, 11);
    let c4 = Color::new(SCALE, SCALE, SCALE);
    let grouped = c1.sample().add(c2.sample()).add(c3.sample().add(c4.sample()));
    let linear = c1.sample().add(c2.sample()).add(c3.sample()).add(c4.sample());
    assert_eq!(grouped.r, linear.r);
    assert_eq!(grouped.g, linear.g);
    assert_eq!(grouped.b, linear.b);
    assert_eq!(grouped.count, linear.count);
    let a = grouped.to_color();
    let b = linear.to_color();
    assert_eq!((a.r, a.g, a.b), (b.r, b.g, b.b));
}
