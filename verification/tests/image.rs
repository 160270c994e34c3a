use raytracer::color::{ppm_header, write_color};
use raytracer::render::{camera_ray, gradient_image, render};
use raytracer::trace::ray_color;
use raytracer::vec3::Vector3;

#[test]
fn write_color_encodes_channels() {
    // (0, 0.5, 1.0) -> 0, floor(127.9995), floor(255.999)
    let c = Vector3::new(0, 500_000, 1_000_000);
    assert_eq!(write_color(&c), b"0 127 255\n".to_vec());
}

#[test]
fn write_color_negative_channel_is_not_clamped() {
    let c = Vector3::new(-500_000, 0, 2_000_000);
    assert_eq!(write_color(&c), b"-127 0 511\n".to_vec());
}

#[test]
fn ppm_header_format() {
    assert_eq!(ppm_header(256, 256), b"P3\n256 256\n255\n".to_vec());
    assert_eq!(ppm_header(400, 225), b"P3\n400 225\n255\n".to_vec());
}

#[test]
fn gradient_image_end_to_end() {
    // 256 x 256, no sphere: pixel (i, j) is (i/255, j/255, 0), which the
    // byte encoding maps back to exactly (i, j, 0)
    let out = gradient_image(256, 256);
    let mut expected = String::from("P3\n256 256\n255\n");
    for j in 0..256u32 {
        for i in 0..256u32 {
            expected.push_str(&format!("{} {} 0\n", i, j));
        }
    }
    assert_eq!(out, expected.into_bytes());
}

#[test]
fn render_matches_per_pixel_pipeline() {
    let width: usize = 10;
    let height: usize = 2;
    let out = render(width, height);
    let mut expected: Vec<u8> = ppm_header(width, height);
    for j in 0..height {
        for i in 0..width {
            let ray = camera_ray(width, height, i, j);
            let color = ray_color(&ray);
            expected.extend(write_color(&color));
        }
    }
    assert_eq!(out, expected);
}

#[test]
fn render_image_has_header_and_one_line_per_pixel() {
    let width: usize = 400;
    let height: usize = 225;
    let out = render(width, height);
    let text = String::from_utf8(out).unwrap();
    let lines: Vec<&str> = text.lines().collect();
    assert_eq!(lines.len(), 3 + width * height);
    assert_eq!(lines[0], "P3");
    assert_eq!(lines[1], "400 225");
    assert_eq!(lines[2], "255");
    for line in &lines[3..] {
        let parts: Vec<&str> = line.split(' ').collect();
        assert_eq!(parts.len(), 3);
        for p in parts {
            let v: i64 = p.parse().unwrap();
            assert!((0..=255).contains(&v), "channel byte out of range: {}", v);
        }
    }
}
