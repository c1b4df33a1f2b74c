//! Pixels, the image buffer, its text format, and the camera cursor.
use raytrace::camera::Camera;
use raytrace::fixed::SCALE;
use raytrace::image::{ImageBuffer, Pixel};
use raytrace::numbers::Color;

#[test]
fn test_pixel_new() {
    let p = Pixel::new(1, 2, 3);
    assert_eq!((p.r, p.g, p.b), (1, 2, 3));
}

#[test]
fn test_pixel_serialize_ppm() {
    assert_eq!(Pixel::new(128, 255, 0).serialize_ppm(), "128 255 0\n");
    assert_eq!(Pixel::new(0, 7, 10).serialize_ppm(), "0 7 10\n");
}

#[test]
fn test_to_pixel_gamma_and_clamp() {
    let p = Color::new(SCALE / 4, SCALE, 0).to_pixel();
    // gamma correction takes a quarter to one half
    assert_eq!((p.r, p.g, p.b), (128, 255, 0));
    let negative = Color::new(-SCALE, 0, 0).to_pixel();
    assert_eq!(negative.r, 0);
    let bright = Color::new(4 * SCALE, 0, 0).to_pixel();
    assert_eq!(bright.r, 255);
}

#[test]
fn test_image_buffer_gradient() {
    let b = ImageBuffer::new(2, 2);
    assert_eq!(b.width, 2);
    assert_eq!(b.height, 2);
    assert_eq!(b.buffer.len(), 4);
    let expected: [(u8, u8, u8); 4] = [(0, 0, 128), (255, 0, 128), (0, 255, 128), (255, 255, 128)];
    for (k, want) in expected.iter().enumerate() {
        let p = b.buffer[k];
        assert_eq!((p.r, p.g, p.b), *want);
    }
}

#[test]
fn test_swap_pixels_matching_length() {
    let mut b = ImageBuffer::new(2, 2);
    let fresh = vec![Pixel::new(9, 9, 9); 4];
    b.swap_pixels(fresh);
    assert!(b.buffer.iter().all(|p| (p.r, p.g, p.b) == (9, 9, 9)));
}

#[test]
fn test_swap_pixels_length_mismatch_keeps_buffer() {
    let mut b = ImageBuffer::new(2, 2);
    let before = b.buffer[0];
    b.swap_pixels(vec![Pixel::new(9, 9, 9); 3]);
    assert_eq!((b.buffer[0].r, b.buffer[0].g, b.buffer[0].b), (before.r, before.g, before.b));
}

#[test]
fn test_serialize_ppm_whole_image() {
    let mut b = ImageBuffer::new(2, 2);
    b.swap_pixels(vec![
        Pixel::new(0, 0, 0),
        Pixel::new(255, 0, 0),
        Pixel::new(0, 255, 0),
        Pixel::new(10, 20, 30),
    ]);
    let text = b.serialize_ppm();
    assert_eq!(text, "P3\n2 2\n255\n0 0 0\n255 0 0\n0 255 0\n10 20 30\n");
}

#[test]
fn test_camera_cursor_walks_grid_once() {
    let camera = Camera::new(2 * SCALE, 2 * SCALE);
    let mut iter = camera.rays(3, 2, 2);
    let mut seen: usize = 0;
    while let Some((_uv, rays)) = iter.next() {
        assert_eq!(rays.len(), 2);
        for ray in rays.iter() {
            assert_eq!((ray.origin.x, ray.origin.y, ray.origin.z), (0, 0, 0));
            // the view plane sits one focal length ahead
            assert_eq!(ray.direction.z, -SCALE);
        }
        seen += 1;
    }
    assert_eq!(seen, 6);
    assert!(iter.next().is_none());
}

#[test]
fn test_camera_uv_coordinates() {
    let camera = Camera::new(2 * SCALE, 2 * SCALE);
    let mut iter = camera.rays(2, 2, 1);
    let (uv00, _) = iter.next().expect("four pixels remain");
    assert_eq!((uv00.u, uv00.v), (0, 2 * SCALE));
    let (uv10, _) = iter.next().expect("three pixels remain");
    assert_eq!((uv10.u, uv10.v), (SCALE, 2 * SCALE));
    let (uv01, _) = iter.next().expect("two pixels remain");
    assert_eq!((uv01.u, uv01.v), (0, SCALE));
    let (uv11, _) = iter.next().expect("one pixel remains");
    assert_eq!((uv11.u, uv11.v), (SCALE, SCALE));
    assert!(iter.next().is_none());
}
