//! The pinhole camera and the pixel scan.
//!
//! The camera sits at the origin looking down the negative z axis at a
//! viewport two units tall, one unit away, whose width follows the aspect
//! ratio.  [`camera_ray`] computes the ray through the center of one pixel;
//! [`render`] scans the image row by row, top to bottom and left to right,
//! resolving and encoding one color per pixel after the image header.
//! [`gradient_image`] renders the constant-gradient test image with no
//! sphere: pixel (i, j) is `(i / (width-1), j / (height-1), 0)`.

use vstd::prelude::*;

verus! {

use crate::color::s_color_line;
use crate::color::s_ppm_header;
use crate::color::ppm_header;
use crate::color::write_color;
use crate::fixed::SCALE;
use crate::fixed::div_trunc;
use crate::fixed::lemma_tdiv_mono;
use crate::fixed::tdiv;
use crate::ray::Ray;
use crate::trace::COORD_BOUND;
use crate::trace::s_ray_color;
use crate::trace::ray_color;
use crate::vec3::Vec3i;
use crate::vec3::Vector3;
use crate::vec3::v_len_sq;
use crate::vec3::v_zero;
use crate::vec3::within;
use vstd::arithmetic::div_mod::lemma_div_is_ordered;
use vstd::arithmetic::div_mod::lemma_div_multiples_vanish;
use vstd::arithmetic::div_mod::lemma_div_nonincreasing;
use vstd::arithmetic::div_mod::lemma_div_pos_is_pos;
use vstd::arithmetic::div_mod::lemma_fundamental_div_mod;
use vstd::arithmetic::div_mod::lemma_multiply_divide_lt;

/// Image dimensions the camera accepts: at least one pixel tall, between
/// square and five times wider than tall, and at most 4096 pixels wide.
/// The aspect bound keeps the viewport, and with it every ray direction,
/// inside the tracer's coordinate bound.
pub open spec fn dims_ok(w: int, h: int) -> bool {
    &&& 1 <= h
    &&& h <= w
    &&& w <= 5 * h
    &&& w <= 4096
}

/// Fixed-point viewport width: two units tall times the aspect ratio.
pub open spec fn cam_viewport_width(w: int, h: int) -> int {
    tdiv(2 * (SCALE as int) * w, h)
}

/// Horizontal step from one pixel center to the next.
pub open spec fn cam_du(w: int, h: int) -> int {
    tdiv(cam_viewport_width(w, h), w)
}

/// Vertical step from one pixel center to the next; negative, because rows
/// go top to bottom.
pub open spec fn cam_dv(h: int) -> int {
    -tdiv(2 * (SCALE as int), h)
}

/// Horizontal coordinate of the upper-left pixel center.
pub open spec fn cam_p00_x(w: int, h: int) -> int {
    -tdiv(cam_viewport_width(w, h), 2) + tdiv(cam_du(w, h), 2)
}

/// Vertical coordinate of the upper-left pixel center.
pub open spec fn cam_p00_y(h: int) -> int {
    SCALE as int + tdiv(cam_dv(h), 2)
}

/// Direction of the ray through the center of pixel (i, j): the upper-left
/// pixel center displaced by whole pixel steps, one focal length ahead.
pub open spec fn cam_dir(w: int, h: int, i: int, j: int) -> Vec3i {
    Vec3i {
        x: cam_p00_x(w, h) + i * cam_du(w, h),
        y: cam_p00_y(h) + j * cam_dv(h),
        z: -(SCALE as int),
    }
}

/// The scan of the first `k` pixels of the traced image, row-major: one
/// color line per pixel.
pub open spec fn s_scan(w: int, h: int, k: int) -> Seq<u8>
    decreases k,
{
    if k <= 0 {
        Seq::empty()
    } else {
        s_scan(w, h, k - 1) + s_color_line(
            s_ray_color(v_zero(), cam_dir(w, h, (k - 1) % w, (k - 1) / w)),
        )
    }
}

/// The whole traced image: header, then one line per pixel.
pub open spec fn s_render(w: int, h: int) -> Seq<u8> {
    s_ppm_header(w, h) + s_scan(w, h, w * h)
}

/// The constant-gradient test color of pixel (i, j): red grows left to
/// right, green top to bottom, no blue.
pub open spec fn gradient_color(w: int, h: int, i: int, j: int) -> Vec3i {
    Vec3i { x: tdiv(i * (SCALE as int), w - 1), y: tdiv(j * (SCALE as int), h - 1), z: 0 }
}

/// The scan of the first `k` pixels of the gradient image.
pub open spec fn s_gradient_scan(w: int, h: int, k: int) -> Seq<u8>
    decreases k,
{
    if k <= 0 {
        Seq::empty()
    } else {
        s_gradient_scan(w, h, k - 1) + s_color_line(gradient_color(w, h, (k - 1) % w, (k - 1) / w))
    }
}

/// The whole gradient image: header, then one line per pixel.
pub open spec fn s_gradient_image(w: int, h: int) -> Seq<u8> {
    s_ppm_header(w, h) + s_gradient_scan(w, h, w * h)
}

/// The ray from the camera through the center of pixel (i, j), with its
/// direction bounded and of at least unit squared length, as the tracer
/// needs.
pub fn camera_ray(width: usize, height: usize, i: usize, j: usize) -> (r: Ray)
    requires
        dims_ok(width as int, height as int),
        i < width,
        j < height,
    ensures
        r.origin@ == v_zero(),
        r.direction@ == cam_dir(width as int, height as int, i as int, j as int),
        within(r.direction@, COORD_BOUND as int),
        v_len_sq(r.direction@) >= SCALE as int,
{
    let w: i64 = width as i64;
    let h: i64 = height as i64;
    let vw: i64 = div_trunc(2 * SCALE * w, h);
    proof {
        lemma_tdiv_mono(2 * (SCALE as int) * w, 10 * (SCALE as int) * h, h as int);
        lemma_div_multiples_vanish(10 * (SCALE as int), h as int);
        assert(2 * (SCALE as int) * w <= 10 * (SCALE as int) * h) by (nonlinear_arith)
            requires
                w <= 5 * h,
                0 < h,
        ;
        assert(vw >= 0) by {
            lemma_tdiv_mono(0, 2 * (SCALE as int) * w, h as int);
        }
    }
    let du: i64 = div_trunc(vw, w);
    let dv: i64 = -div_trunc(2 * SCALE, h);
    proof {
        lemma_fundamental_div_mod(vw as int, w as int);
        lemma_fundamental_div_mod(2 * (SCALE as int), h as int);
        lemma_div_nonincreasing(vw as int, w as int);
        lemma_div_nonincreasing(2 * (SCALE as int), h as int);
    }
    let p00x: i64 = -div_trunc(vw, 2) + div_trunc(du, 2);
    let p00y: i64 = SCALE + div_trunc(dv, 2);
    proof {
        assert(i * du <= (w - 1) * du && 0 <= i * du) by (nonlinear_arith)
            requires
                0 <= i < w,
                0 <= du,
        ;
        assert(j * dv >= (h - 1) * dv && j * dv <= 0) by (nonlinear_arith)
            requires
                0 <= j < h,
                dv <= 0,
        ;
        assert((w - 1) * du == w * du - du && (h - 1) * dv == h * dv - dv) by (nonlinear_arith);
        assert(0 <= i * du <= 41_000_000_000) by (nonlinear_arith)
            requires
                0 <= i <= 4095,
                0 <= du <= 10_000_000,
        ;
        assert(-8_200_000_000 <= j * dv <= 0) by (nonlinear_arith)
            requires
                0 <= j <= 4095,
                -2_000_000 <= dv <= 0,
        ;
        assert(w * du <= vw) by (nonlinear_arith)
            requires
                vw >= 0,
                w > 0,
                du == vw as int / w as int,
                vw as int == w as int * (vw as int / w as int) + vw as int % w as int,
                vw as int % w as int >= 0,
        ;
        assert(h * (-dv) <= 2 * (SCALE as int)) by (nonlinear_arith)
            requires
                h > 0,
                -dv == 2 * (SCALE as int) / h as int,
                2 * (SCALE as int) == h as int * (2 * (SCALE as int) / h as int) + 2 * (
                SCALE as int) % h as int,
                2 * (SCALE as int) % h as int >= 0,
        ;
    }
    let x: i64 = p00x + (i as i64) * du;
    let y: i64 = p00y + (j as i64) * dv;
    proof {
        lemma_fundamental_div_mod(vw as int, 2);
        lemma_div_nonincreasing(du as int, 2);
        lemma_div_pos_is_pos(du as int, 2);
        lemma_div_is_ordered(-dv as int, 2 * (SCALE as int), 2);
        lemma_div_pos_is_pos(-dv as int, 2);
        assert(h * dv == -(h * (-dv))) by (nonlinear_arith);
        assert(-12_000_000 <= x as int <= 12_000_000);
        assert(-12_000_000 <= y as int <= 12_000_000);
    }
    let direction = Vector3::new(x, y, -SCALE);
    let origin = Vector3::zero();
    proof {
        assert(x * x >= 0 && y * y >= 0) by (nonlinear_arith);
        assert(x * x + y * y + (-(SCALE as int)) * (-(SCALE as int)) >= 1_000_000_000_000);
        lemma_tdiv_mono(
            1_000_000_000_000,
            x * x + y * y + (-(SCALE as int)) * (-(SCALE as int)),
            SCALE as int,
        );
    }
    Ray::new(&origin, &direction)
}

/// Renders the traced image at the given dimensions: the header, then one
/// encoded color line per pixel, rows top to bottom, columns left to right.
pub fn render(width: usize, height: usize) -> (out: Vec<u8>)
    requires
        dims_ok(width as int, height as int),
    ensures
        out@ == s_render(width as int, height as int),
{
    proof {
        assert(width * height <= 16_777_216) by (nonlinear_arith)
            requires
                width <= 4096,
                height <= 4096,
        ;
    }
    let total: usize = width * height;
    let mut out: Vec<u8> = ppm_header(width, height);
    let mut k: usize = 0;
    while k < total
        invariant
            dims_ok(width as int, height as int),
            total == width * height,
            k <= total,
            out@ == s_ppm_header(width as int, height as int) + s_scan(
                width as int,
                height as int,
                k as int,
            ),
        decreases total - k,
    {
        let i: usize = k % width;
        let j: usize = k / width;
        proof {
            lemma_multiply_divide_lt(k as int, width as int, height as int);
        }
        let ray = camera_ray(width, height, i, j);
        let c = ray_color(&ray);
        let mut line: Vec<u8> = write_color(&c);
        out.append(&mut line);
        k = k + 1;
        proof {
            assert(out@ =~= s_ppm_header(width as int, height as int) + s_scan(
                width as int,
                height as int,
                k as int,
            ));
        }
    }
    out
}

/// Renders the constant-gradient test image: no sphere, red growing left
/// to right, green growing top to bottom, blue zero.
pub fn gradient_image(width: usize, height: usize) -> (out: Vec<u8>)
    requires
        2 <= width <= 4096,
        2 <= height <= 4096,
    ensures
        out@ == s_gradient_image(width as int, height as int),
{
    proof {
        assert(width * height <= 16_777_216) by (nonlinear_arith)
            requires
                width <= 4096,
                height <= 4096,
        ;
    }
    let total: usize = width * height;
    let mut out: Vec<u8> = ppm_header(width, height);
    let mut k: usize = 0;
    while k < total
        invariant
            2 <= width <= 4096,
            2 <= height <= 4096,
            total == width * height,
            k <= total,
            out@ == s_ppm_header(width as int, height as int) + s_gradient_scan(
                width as int,
                height as int,
                k as int,
            ),
        decreases total - k,
    {
        let i: usize = k % width;
        let j: usize = k / width;
        proof {
            lemma_multiply_divide_lt(k as int, width as int, height as int);
            lemma_div_nonincreasing(i as int * (SCALE as int), width as int - 1);
            lemma_div_nonincreasing(j as int * (SCALE as int), height as int - 1);
            lemma_tdiv_mono(0, i as int * (SCALE as int), width as int - 1);
            lemma_tdiv_mono(0, j as int * (SCALE as int), height as int - 1);
            assert(i as int * (SCALE as int) <= 4_095_000_000 && 0 <= i as int * (SCALE as int))
                by (nonlinear_arith)
                requires
                    0 <= i as int <= 4095,
            ;
            assert(j as int * (SCALE as int) <= 4_095_000_000 && 0 <= j as int * (SCALE as int))
                by (nonlinear_arith)
                requires
                    0 <= j as int <= 4095,
            ;
        }
        let c = Vector3::new(
            div_trunc((i as i64) * SCALE, (width as i64) - 1),
            div_trunc((j as i64) * SCALE, (height as i64) - 1),
            0,
        );
        let mut line: Vec<u8> = write_color(&c);
        out.append(&mut line);
        k = k + 1;
        proof {
            assert(out@ =~= s_ppm_header(width as int, height as int) + s_gradient_scan(
                width as int,
                height as int,
                k as int,
            ));
        }
    }
    out
}

} // verus!
