//! The finished image as the display takes it: rows from the highest down,
//! four bytes to the pixel, each channel a byte.

use vstd::arithmetic::div_mod::{
    lemma_basic_div, lemma_div_denominator, lemma_div_is_ordered, lemma_div_multiples_vanish,
};
use vstd::arithmetic::power2::{
    lemma2_to64, lemma_pow2_adds, lemma_pow2_pos, lemma_pow2_strictly_increases, pow2,
};
use vstd::prelude::*;
use crate::primitives::{Rect, Vec2i};
use crate::renderer::pixel_at;
use crate::scalar::{lemma_magnitude_orders_value, Scalar, FRACTION_SPAN};

verus! {

/// A pixel ready for display: red, green and blue.
#[derive(Clone, Copy, Debug, PartialEq, Eq)]
pub struct Rgb {
    pub r: u8,
    pub g: u8,
    pub b: u8,
}

/// The opacity of every pixel.
pub const OPAQUE: u8 = 255;

/// The row that is rendered and displayed at turn `k` in an image of the
/// given height: the highest row first, row 0 last.
pub open spec fn scan_row(height: int, k: int) -> int {
    height - 1 - k
}

/// The place in the frame of the pixel `(x, y)`, counted in pixels: row after
/// row as they are scanned, and within a row from column 0 on.
pub open spec fn frame_place(img_size: Vec2i, x: int, y: int) -> int {
    (img_size.y - 1 - y) * img_size.x + x
}

/// The rows of an image of the given height in the order in which they are
/// rendered and displayed.
pub fn scan_rows(height: i32) -> (rows: Vec<i32>)
    ensures
        rows@.len() == if height > 0 { height as int } else { 0 },
        forall|k: int| 0 <= k < rows@.len() ==> #[trigger] rows@[k] == scan_row(height as int, k),
{
    let mut rows: Vec<i32> = Vec::new();
    let mut row: i32 = height;
    while row > 0
        invariant
            0 <= row <= height || (height <= 0 && row == height),
            rows@.len() == if height > 0 { height - row } else { 0 },
            forall|k: int|
                0 <= k < rows@.len() ==> #[trigger] rows@[k] == scan_row(height as int, k),
        decreases row,
    {
        row = row - 1;
        rows.push(row);
    }
    rows
}

/// Rendering line by line fills the frame without gap or overlap: the pixel
/// `(x, y)` of an image has a place of its own in the frame, in the row that
/// is scanned at the turn this place gives and at column `x` of that row's
/// tile.
pub proof fn lemma_frame_order(img_size: Vec2i, x: int, y: int)
    requires
        0 <= x < img_size.x,
        0 <= y < img_size.y,
    ensures
        0 <= frame_place(img_size, x, y) < img_size.y * img_size.x,
        scan_row(img_size.y as int, frame_place(img_size, x, y) / (img_size.x as int)) == y,
        frame_place(img_size, x, y) % (img_size.x as int) == x,
        pixel_at(Rect { x: 0, y: y as i32, w: img_size.x, h: 1 }, x) == (x, y),
{
    let w = img_size.x as int;
    let h = img_size.y as int;
    let r = h - 1 - y;
    assert(0 <= r * w + x < h * w) by (nonlinear_arith)
        requires
            0 <= r < h,
            0 <= x < w,
    ;
    vstd::arithmetic::div_mod::lemma_fundamental_div_mod_converse(r * w + x, w, r, x);
    vstd::arithmetic::div_mod::lemma_fundamental_div_mod_converse(x, w, 0, x);
}

/// The byte buffer of an image: for each pixel in turn its red, green and
/// blue, and then the opacity, which is always full.
pub fn pack_rgba(pixels: &Vec<Rgb>) -> (bytes: Vec<u8>)
    ensures
        bytes@.len() == 4 * pixels@.len(),
        forall|i: int|
            0 <= i < pixels@.len() ==> {
                &&& bytes@[4 * i] == (#[trigger] pixels@[i]).r
                &&& bytes@[4 * i + 1] == pixels@[i].g
                &&& bytes@[4 * i + 2] == pixels@[i].b
                &&& bytes@[4 * i + 3] == OPAQUE
            },
{
    let mut bytes: Vec<u8> = Vec::new();
    let mut i: usize = 0;
    while i < pixels.len()
        invariant
            i <= pixels@.len(),
            bytes@.len() == 4 * i,
            forall|j: int|
                0 <= j < i ==> {
                    &&& bytes@[4 * j] == (#[trigger] pixels@[j]).r
                    &&& bytes@[4 * j + 1] == pixels@[j].g
                    &&& bytes@[4 * j + 2] == pixels@[j].b
                    &&& bytes@[4 * j + 3] == OPAQUE
                },
        decreases pixels@.len() - i,
    {
        let pixel: Rgb = pixels[i];
        bytes.push(pixel.r);
        bytes.push(pixel.g);
        bytes.push(pixel.b);
        bytes.push(OPAQUE);
        i = i + 1;
    }
    bytes
}

/// The pattern of the number nearest to 0.999: the brightest a channel gets.
pub const LIMIT_BITS: u32 = 0x3f7f_be77;

/// A channel held between zero and the limit. What is not a number stays so.
pub open spec fn clamped(s: Scalar) -> Scalar {
    if s.below(Scalar::from_bits(0)) {
        Scalar::from_bits(0)
    } else if Scalar::from_bits(LIMIT_BITS).below(s) {
        Scalar::from_bits(LIMIT_BITS)
    } else {
        s
    }
}

/// The byte of a channel: 256 times its clamped value, the fraction dropped,
/// and 0 for what is not a number. The value is a count of units of 2 to the
/// -149, so the byte is that count times 256, divided by 2 to the 149.
pub open spec fn channel(s: Scalar) -> int {
    let c = clamped(s);
    if c.nan() {
        0
    } else {
        c.scaled_magnitude() * 256 / (pow2(149) as int)
    }
}

/// Turns a gamma-corrected channel into its byte.
pub fn quantize(s: Scalar) -> (byte: u8)
    ensures
        byte == channel(s),
{
    let zero = Scalar::from_bits(0);
    let limit = Scalar::from_bits(LIMIT_BITS);
    let c = if s.lt(zero) {
        zero
    } else if s.gt(limit) {
        limit
    } else {
        s
    };
    if c.is_nan() {
        return 0;
    }
    let magnitude: u32 = c.abs().bits;
    let exponent: u32 = magnitude / FRACTION_SPAN;
    let fraction: u32 = magnitude % FRACTION_SPAN;
    // An exponent of 127 stands for one, so one of 119 for the 256th part.
    if exponent < 119 {
        proof {
            lemma_dim_channel_is_zero(c);
        }
        return 0;
    }
    // The digits count units of 2 to the -23; times 256 that leaves them
    // 23 - 8 places too high at exponent 127, and one more for each below.
    let digits: u32 = FRACTION_SPAN + fraction;
    let down: u32 = 142 - exponent;
    proof {
        lemma_bright_channel_is_shift(c);
        vstd::bits::lemma_u32_shr_is_div(digits, down);
        assert((digits >> down) < 256) by (bit_vector)
            requires
                digits < 0x100_0000,
                16 <= down < 32,
        ;
    }
    (digits >> down) as u8
}

/// A brighter channel never gives a darker byte.
pub proof fn lemma_quantize_is_monotone(a: Scalar, b: Scalar)
    requires
        a.below(b),
    ensures
        channel(a) <= channel(b),
{
    let ca = clamped(a);
    let cb = clamped(b);
    assert(ca.magnitude() <= cb.magnitude());
    lemma_magnitude_orders_value(ca, cb);
    lemma_magnitude_orders_value(cb, ca);
    lemma_pow2_pos(149);
    lemma_div_is_ordered(
        ca.scaled_magnitude() * 256,
        cb.scaled_magnitude() * 256,
        pow2(149) as int,
    );
}

/// A channel whose exponent is below 119 is less than one part in 256.
proof fn lemma_dim_channel_is_zero(c: Scalar)
    requires
        c.finite(),
        c.exponent() < 119,
    ensures
        c.scaled_magnitude() * 256 / (pow2(149) as int) == 0,
{
    let k = c.shift();
    let p = pow2(k) as int;
    let g = c.significand();
    let rest = (149 - k) as nat;
    lemma2_to64();
    lemma_pow2_pos(k);
    lemma_pow2_adds(k, rest);
    if rest > 32 {
        lemma_pow2_strictly_increases(32, rest);
    }
    let q = pow2(rest) as int;
    assert(g * p * 256 < p * q) by (nonlinear_arith)
        requires
            0 <= g < 0x100_0000,
            p > 0,
            q >= 0x1_0000_0000,
    ;
    assert(0 <= g * p * 256) by (nonlinear_arith)
        requires
            0 <= g,
            p > 0,
    ;
    lemma_basic_div(g * p * 256, pow2(149) as int);
}

/// A channel below one whose exponent is 119 or more: its byte is its
/// digits shifted down.
proof fn lemma_bright_channel_is_shift(c: Scalar)
    requires
        c.finite(),
        119 <= c.exponent() <= 126,
    ensures
        c.scaled_magnitude() * 256 / (pow2(149) as int) == c.significand() / (pow2(
            (142 - c.exponent()) as nat,
        ) as int),
{
    let k = c.shift();
    let g = c.significand();
    let down = (142 - c.exponent()) as nat;
    lemma2_to64();
    lemma_pow2_adds(k, 8);
    lemma_pow2_adds(k + 8, down);
    lemma_pow2_pos(k + 8);
    lemma_pow2_pos(down);
    let p = pow2(k) as int;
    let up = pow2(k + 8) as int;
    let d = pow2(down) as int;
    assert(g * p * 256 == up * g) by (nonlinear_arith)
        requires
            up == p * 256,
    ;
    assert(0 <= up * g) by (nonlinear_arith)
        requires
            0 <= g,
            0 < up,
    ;
    lemma_div_denominator(up * g, up, d);
    lemma_div_multiples_vanish(g, up);
}

} // verus!
