//! Color lines and the plain-text image header.
//!
//! A color is encoded as three space-separated integers: each fixed-point
//! channel, conventionally in [0, 1], is mapped to the byte range by
//! `255.999 * channel`, truncated toward zero exactly as the formula reads
//! over the fixed-point representation.  Out-of-range channels are not
//! clamped, so they yield out-of-range or negative integers, by design.
//! The decimal rendering itself is verified down to the digit sequence.

use vstd::prelude::*;

verus! {

use crate::fixed::SCALE;
use crate::fixed::div_trunc;
use crate::fixed::lemma_tdiv_range;
use crate::fixed::tdiv;
use crate::vec3::Vec3i;
use crate::vec3::Vector3;
use crate::vec3::within;

/// A color is a vector: components are red, green and blue, conventionally
/// in [0, 1] before output encoding; nothing is clamped at this layer.
pub type Color = Vector3;

/// Largest channel magnitude the encoder accepts: ten million units,
/// far outside the conventional [0, 1] range but inside `i64` after the
/// `255.999` scaling.
pub const CHANNEL_BOUND: i64 = 10_000_000_000_000;

/// The byte value of one channel: `255.999 * c`, truncated toward zero,
/// written over the fixed-point representation as `c * 255999 / (1000 * SCALE)`.
pub open spec fn byte_val(c: int) -> int {
    tdiv(c * 255_999, 1000 * (SCALE as int))
}

/// The decimal digits of a natural number, most significant first.
pub open spec fn dec_digits(n: nat) -> Seq<u8>
    decreases n,
{
    if n < 10 {
        seq![(48 + n) as u8]
    } else {
        dec_digits(n / 10).push((48 + n % 10) as u8)
    }
}

/// The decimal rendering of an integer: a minus sign for negatives,
/// then the digits.
pub open spec fn dec_bytes(n: int) -> Seq<u8> {
    if n < 0 {
        seq![45u8] + dec_digits((-n) as nat)
    } else {
        dec_digits(n as nat)
    }
}

/// One output line for a color: the three encoded channels separated by
/// spaces, ended by a newline.
pub open spec fn s_color_line(c: Vec3i) -> Seq<u8> {
    dec_bytes(byte_val(c.x)) + seq![32u8] + dec_bytes(byte_val(c.y)) + seq![32u8] + dec_bytes(
        byte_val(c.z),
    ) + seq![10u8]
}

/// The image header: the plain-text pixel-map magic, the width and height
/// separated by a space, and the maximum channel value 255, each on its
/// own line.
pub open spec fn s_ppm_header(w: int, h: int) -> Seq<u8>
    recommends
        w >= 0,
        h >= 0,
{
    seq![80u8, 51u8, 10u8] + dec_digits(w as nat) + seq![32u8] + dec_digits(h as nat) + seq![
        10u8,
        50u8,
        53u8,
        53u8,
        10u8,
    ]
}

/// Appends the decimal digits of `n`.
fn push_decimal(out: &mut Vec<u8>, n: u64)
    ensures
        final(out)@ == old(out)@ + dec_digits(n as nat),
    decreases n,
{
    if n < 10 {
        out.push(48 + (n as u8));
        proof {
            assert(out@ =~= old(out)@ + dec_digits(n as nat));
        }
    } else {
        push_decimal(out, n / 10);
        out.push(48 + ((n % 10) as u8));
        proof {
            assert(out@ =~= old(out)@ + dec_digits(n as nat));
        }
    }
}

/// Appends the decimal rendering of `n`, sign included.
fn push_signed(out: &mut Vec<u8>, n: i64)
    requires
        n > i64::MIN,
    ensures
        final(out)@ == old(out)@ + dec_bytes(n as int),
{
    if n < 0 {
        out.push(45);
        push_decimal(out, (-n) as u64);
        proof {
            assert(out@ =~= old(out)@ + dec_bytes(n as int));
        }
    } else {
        push_decimal(out, n as u64);
    }
}

/// The byte value of one channel.
fn color_byte(c: i64) -> (b: i64)
    requires
        -CHANNEL_BOUND <= c <= CHANNEL_BOUND,
    ensures
        b == byte_val(c as int),
        -2_559_990_000_000 <= b <= 2_559_990_000_000,
{
    proof {
        lemma_tdiv_range(c as int * 255_999, 1000 * (SCALE as int), 2_559_990_000_000_000_000);
    }
    div_trunc(c * 255_999, 1_000_000_000)
}

/// Encodes one color as its output line: the three channels mapped to the
/// byte range by `255.999 * channel` (truncated), space-separated, with a
/// trailing newline.
pub fn write_color(pixel_color: &Color) -> (line: Vec<u8>)
    requires
        within(pixel_color@, CHANNEL_BOUND as int),
    ensures
        line@ == s_color_line(pixel_color@),
{
    let mut line: Vec<u8> = Vec::new();
    push_signed(&mut line, color_byte(pixel_color.x()));
    line.push(32);
    push_signed(&mut line, color_byte(pixel_color.y()));
    line.push(32);
    push_signed(&mut line, color_byte(pixel_color.z()));
    line.push(10);
    proof {
        assert(line@ =~= s_color_line(pixel_color@));
    }
    line
}

/// Builds the image header for the given dimensions.
pub fn ppm_header(width: usize, height: usize) -> (out: Vec<u8>)
    ensures
        out@ == s_ppm_header(width as int, height as int),
{
    let mut out: Vec<u8> = Vec::new();
    out.push(80);
    out.push(51);
    out.push(10);
    push_decimal(&mut out, width as u64);
    out.push(32);
    push_decimal(&mut out, height as u64);
    out.push(10);
    out.push(50);
    out.push(53);
    out.push(53);
    out.push(10);
    proof {
        assert(out@ =~= s_ppm_header(width as int, height as int));
    }
    out
}

} // verus!
