//! The dithering engine: diffusion weight grids, ordered threshold
//! matrices, and the raster-scan driver.
//!
//! All arithmetic is exact. A diffusion weight is the fraction
//! `weight_num(m, dy, dx) / weight_den(m)`; the engine adds
//! `error * weight` to a neighbor channel, rounds to the nearest integer
//! (halves away from zero) and clamps into `[0, 255]` per update.

use vstd::prelude::*;

use vstd::arithmetic::div_mod::lemma_basic_div;
use vstd::arithmetic::div_mod::lemma_div_nonincreasing;
use vstd::arithmetic::div_mod::lemma_div_pos_is_pos;
use vstd::arithmetic::div_mod::lemma_fundamental_div_mod_converse;

use crate::palette::Color;
use crate::palette::ColorPalette;
use crate::palette::map_to_palette;
use crate::palette::nearest_index;
use crate::palette::palette_colors;
use crate::palette::palette_seq;

verus! {

/// Selector for the dithering algorithm applied after palette matching.
///
/// `NoDither` maps every pixel to its nearest palette color and spreads no
/// error. The next nine are error-diffusion kernels; the three `Bayer`
/// variants are ordered (threshold-matrix) methods that never touch
/// neighboring pixels.
#[derive(Clone, Copy, Debug, PartialEq, Eq, Structural)]
pub enum DitherMethod {
    NoDither,
    FloydSteinberg,
    Simple2D,
    Jarvis,
    Atkinson,
    Stucki,
    Burkes,
    Sierra,
    TwoRowSierra,
    SierraLite,
    Bayer2x2,
    Bayer4x4,
    Bayer8x8,
}

/// Signed per-channel residual `original - chosen`, computed fresh per
/// pixel and consumed immediately. Each field lies in `[-255, 255]`.
#[derive(Clone, Copy, Debug, PartialEq, Eq, Structural)]
pub struct QuantizationError {
    pub r: i16,
    pub g: i16,
    pub b: i16,
}

/// The one failure the engine reports: the buffer length does not equal
/// `width * height * 3`.
#[derive(Clone, Copy, Debug, PartialEq, Eq, Structural)]
pub enum DitherError {
    InvalidGeometry,
}

pub open spec fn is_ordered(m: DitherMethod) -> bool {
    match m {
        DitherMethod::Bayer2x2 | DitherMethod::Bayer4x4 | DitherMethod::Bayer8x8 => true,
        _ => false,
    }
}

pub open spec fn is_diffusion(m: DitherMethod) -> bool {
    match m {
        DitherMethod::NoDither | DitherMethod::Bayer2x2 | DitherMethod::Bayer4x4
            | DitherMethod::Bayer8x8 => false,
        _ => true,
    }
}

/// Common denominator of a diffusion method's weight grid.
pub open spec fn weight_den(m: DitherMethod) -> int {
    match m {
        DitherMethod::FloydSteinberg => 16,
        DitherMethod::Simple2D => 2,
        DitherMethod::Jarvis => 48,
        DitherMethod::Atkinson => 8,
        DitherMethod::Stucki => 42,
        DitherMethod::Burkes => 32,
        DitherMethod::Sierra => 32,
        DitherMethod::TwoRowSierra => 16,
        DitherMethod::SierraLite => 4,
        _ => 1,
    }
}

/// Numerator of the weight a diffusion method gives the neighbor at
/// `(row_offset dy, col_offset dx)` relative to the current pixel, with
/// `dy` in `{0, 1, 2}` (current row and the two rows below) and `dx` in
/// `{-2..2}`. Every offset at or before the current pixel in scan order
/// has weight zero (causality), and any offset outside the grid has
/// weight zero.
pub open spec fn weight_num(m: DitherMethod, dy: int, dx: int) -> int {
    match m {
        DitherMethod::FloydSteinberg => if dy == 0 && dx == 1 {
            7
        } else if dy == 1 && dx == -1 {
            3
        } else if dy == 1 && dx == 0 {
            5
        } else if dy == 1 && dx == 1 {
            1
        } else {
            0
        },
        DitherMethod::Simple2D => if dy == 0 && dx == 1 {
            1
        } else if dy == 1 && dx == 0 {
            1
        } else {
            0
        },
        DitherMethod::Jarvis => if dy == 0 && dx == 1 {
            7
        } else if dy == 0 && dx == 2 {
            5
        } else if dy == 1 && (dx == -2 || dx == 2) {
            3
        } else if dy == 1 && (dx == -1 || dx == 1) {
            5
        } else if dy == 1 && dx == 0 {
            7
        } else if dy == 2 && (dx == -2 || dx == 2) {
            1
        } else if dy == 2 && (dx == -1 || dx == 1) {
            3
        } else if dy == 2 && dx == 0 {
            5
        } else {
            0
        },
        DitherMethod::Atkinson => if dy == 0 && (dx == 1 || dx == 2) {
            1
        } else if dy == 1 && -1 <= dx <= 1 {
            1
        } else if dy == 2 && dx == 0 {
            1
        } else {
            0
        },
        DitherMethod::Stucki => if dy == 0 && dx == 1 {
            8
        } else if dy == 0 && dx == 2 {
            4
        } else if dy == 1 && (dx == -2 || dx == 2) {
            2
        } else if dy == 1 && (dx == -1 || dx == 1) {
            4
        } else if dy == 1 && dx == 0 {
            8
        } else if dy == 2 && (dx == -2 || dx == 2) {
            1
        } else if dy == 2 && (dx == -1 || dx == 1) {
            2
        } else if dy == 2 && dx == 0 {
            4
        } else {
            0
        },
        DitherMethod::Burkes => if dy == 0 && dx == 1 {
            8
        } else if dy == 0 && dx == 2 {
            4
        } else if dy == 1 && (dx == -2 || dx == 2) {
            2
        } else if dy == 1 && (dx == -1 || dx == 1) {
            4
        } else if dy == 1 && dx == 0 {
            8
        } else {
            0
        },
        DitherMethod::Sierra => if dy == 0 && dx == 1 {
            5
        } else if dy == 0 && dx == 2 {
            3
        } else if dy == 1 && (dx == -2 || dx == 2) {
            2
        } else if dy == 1 && (dx == -1 || dx == 1) {
            4
        } else if dy == 1 && dx == 0 {
            5
        } else if dy == 2 && (dx == -1 || dx == 1) {
            2
        } else if dy == 2 && dx == 0 {
            3
        } else {
            0
        },
        DitherMethod::TwoRowSierra => if dy == 0 && dx == 1 {
            4
        } else if dy == 0 && dx == 2 {
            3
        } else if dy == 1 && (dx == -2 || dx == 2) {
            1
        } else if dy == 1 && (dx == -1 || dx == 1) {
            2
        } else if dy == 1 && dx == 0 {
            3
        } else {
            0
        },
        DitherMethod::SierraLite => if dy == 0 && dx == 1 {
            2
        } else if dy == 1 && (dx == -1 || dx == 0) {
            1
        } else {
            0
        },
        _ => 0,
    }
}

/// Sum of all weight numerators of a method's grid.
pub open spec fn kernel_num_sum(m: DitherMethod) -> int {
    weight_num(m, 0, -2) + weight_num(m, 0, -1) + weight_num(m, 0, 0) + weight_num(m, 0, 1)
        + weight_num(m, 0, 2) + weight_num(m, 1, -2) + weight_num(m, 1, -1) + weight_num(m, 1, 0)
        + weight_num(m, 1, 1) + weight_num(m, 1, 2) + weight_num(m, 2, -2) + weight_num(m, 2, -1)
        + weight_num(m, 2, 0) + weight_num(m, 2, 1) + weight_num(m, 2, 2)
}

/// The shape every weight grid obeys: nonnegative weights, zero weight at
/// and before the current pixel and outside the three-row window
/// (causality), a total of at most the denominator (the kernel never
/// amplifies error), and, for a diffusion method, positive weight on the
/// right and lower neighbors.
pub proof fn lemma_kernel_conservation(m: DitherMethod)
    ensures
        weight_den(m) >= 1,
        kernel_num_sum(m) <= weight_den(m),
        forall|dy: int, dx: int| #[trigger] weight_num(m, dy, dx) >= 0,
        forall|dx: int| dx <= 0 ==> #[trigger] weight_num(m, 0, dx) == 0,
        forall|dy: int, dx: int|
            (dy < 0 || dy > 2 || dx < -2 || dx > 2) ==> #[trigger] weight_num(m, dy, dx) == 0,
        is_diffusion(m) ==> weight_num(m, 0, 1) >= 1 && weight_num(m, 1, 0) >= 1,
{
}

/// The documented sum of each diffusion kernel: every grid but Atkinson's
/// conserves the whole error; Atkinson deliberately dissipates a quarter
/// of it (6/8).
pub proof fn lemma_kernel_sums()
    ensures
        kernel_num_sum(DitherMethod::FloydSteinberg) == 16,
        weight_den(DitherMethod::FloydSteinberg) == 16,
        kernel_num_sum(DitherMethod::Simple2D) == 2,
        weight_den(DitherMethod::Simple2D) == 2,
        kernel_num_sum(DitherMethod::Jarvis) == 48,
        weight_den(DitherMethod::Jarvis) == 48,
        kernel_num_sum(DitherMethod::Atkinson) == 6,
        weight_den(DitherMethod::Atkinson) == 8,
        kernel_num_sum(DitherMethod::Stucki) == 42,
        weight_den(DitherMethod::Stucki) == 42,
        kernel_num_sum(DitherMethod::Burkes) == 32,
        weight_den(DitherMethod::Burkes) == 32,
        kernel_num_sum(DitherMethod::Sierra) == 32,
        weight_den(DitherMethod::Sierra) == 32,
        kernel_num_sum(DitherMethod::TwoRowSierra) == 16,
        weight_den(DitherMethod::TwoRowSierra) == 16,
        kernel_num_sum(DitherMethod::SierraLite) == 4,
        weight_den(DitherMethod::SierraLite) == 4,
{
}

/// Executable lookup of a weight numerator; mirrors `weight_num`.
pub fn kernel_weight_num(m: DitherMethod, dy: u32, dx: i32) -> (w: u32)
    ensures
        w as int == weight_num(m, dy as int, dx as int),
        w <= 8,
{
    match m {
        DitherMethod::FloydSteinberg => if dy == 0 && dx == 1 {
            7
        } else if dy == 1 && dx == -1 {
            3
        } else if dy == 1 && dx == 0 {
            5
        } else if dy == 1 && dx == 1 {
            1
        } else {
            0
        },
        DitherMethod::Simple2D => if dy == 0 && dx == 1 {
            1
        } else if dy == 1 && dx == 0 {
            1
        } else {
            0
        },
        DitherMethod::Jarvis => if dy == 0 && dx == 1 {
            7
        } else if dy == 0 && dx == 2 {
            5
        } else if dy == 1 && (dx == -2 || dx == 2) {
            3
        } else if dy == 1 && (dx == -1 || dx == 1) {
            5
        } else if dy == 1 && dx == 0 {
            7
        } else if dy == 2 && (dx == -2 || dx == 2) {
            1
        } else if dy == 2 && (dx == -1 || dx == 1) {
            3
        } else if dy == 2 && dx == 0 {
            5
        } else {
            0
        },
        DitherMethod::Atkinson => if dy == 0 && (dx == 1 || dx == 2) {
            1
        } else if dy == 1 && -1 <= dx && dx <= 1 {
            1
        } else if dy == 2 && dx == 0 {
            1
        } else {
            0
        },
        DitherMethod::Stucki => if dy == 0 && dx == 1 {
            8
        } else if dy == 0 && dx == 2 {
            4
        } else if dy == 1 && (dx == -2 || dx == 2) {
            2
        } else if dy == 1 && (dx == -1 || dx == 1) {
            4
        } else if dy == 1 && dx == 0 {
            8
        } else if dy == 2 && (dx == -2 || dx == 2) {
            1
        } else if dy == 2 && (dx == -1 || dx == 1) {
            2
        } else if dy == 2 && dx == 0 {
            4
        } else {
            0
        },
        DitherMethod::Burkes => if dy == 0 && dx == 1 {
            8
        } else if dy == 0 && dx == 2 {
            4
        } else if dy == 1 && (dx == -2 || dx == 2) {
            2
        } else if dy == 1 && (dx == -1 || dx == 1) {
            4
        } else if dy == 1 && dx == 0 {
            8
        } else {
            0
        },
        DitherMethod::Sierra => if dy == 0 && dx == 1 {
            5
        } else if dy == 0 && dx == 2 {
            3
        } else if dy == 1 && (dx == -2 || dx == 2) {
            2
        } else if dy == 1 && (dx == -1 || dx == 1) {
            4
        } else if dy == 1 && dx == 0 {
            5
        } else if dy == 2 && (dx == -1 || dx == 1) {
            2
        } else if dy == 2 && dx == 0 {
            3
        } else {
            0
        },
        DitherMethod::TwoRowSierra => if dy == 0 && dx == 1 {
            4
        } else if dy == 0 && dx == 2 {
            3
        } else if dy == 1 && (dx == -2 || dx == 2) {
            1
        } else if dy == 1 && (dx == -1 || dx == 1) {
            2
        } else if dy == 1 && dx == 0 {
            3
        } else {
            0
        },
        DitherMethod::SierraLite => if dy == 0 && dx == 1 {
            2
        } else if dy == 1 && (dx == -1 || dx == 0) {
            1
        } else {
            0
        },
        _ => 0,
    }
}

/// Executable lookup of a weight denominator; mirrors `weight_den`.
pub fn kernel_weight_den(m: DitherMethod) -> (d: u32)
    ensures
        d as int == weight_den(m),
        1 <= d <= 48,
{
    match m {
        DitherMethod::FloydSteinberg => 16,
        DitherMethod::Simple2D => 2,
        DitherMethod::Jarvis => 48,
        DitherMethod::Atkinson => 8,
        DitherMethod::Stucki => 42,
        DitherMethod::Burkes => 32,
        DitherMethod::Sierra => 32,
        DitherMethod::TwoRowSierra => 16,
        DitherMethod::SierraLite => 4,
        _ => 1,
    }
}

/// Quotient `a / b` rounded to the nearest integer, halves away from zero.
pub open spec fn round_div(a: int, b: int) -> int
    recommends
        b > 0,
{
    if a >= 0 {
        (2 * a + b) / (2 * b)
    } else {
        -((2 * (-a) + b) / (2 * b))
    }
}

/// Clamps an integer into the byte range `[0, 255]`.
pub open spec fn clamp255(v: int) -> u8 {
    if v < 0 {
        0
    } else if v > 255 {
        255
    } else {
        v as u8
    }
}

/// The stored value of a channel after one diffusion update: the current
/// value `v` plus `e * num / den`, rounded to nearest and clamped, i.e.
/// `clamp(round((v * den + e * num) / den))` computed exactly.
pub open spec fn apply_err_spec(v: int, e: int, num: int, den: int) -> u8
    recommends
        den > 0,
{
    clamp255(round_div(v * den + e * num, den))
}

/// One diffusion update of a channel byte, exact integer arithmetic.
fn apply_err(old_val: u8, e: i16, num: u32, den: u32) -> (r: u8)
    requires
        1 <= den <= 48,
        num <= 8,
        -255 <= e <= 255,
    ensures
        r == apply_err_spec(old_val as int, e as int, num as int, den as int),
{
    proof {
        assert(0 <= (old_val as int) * (den as int) <= 255 * 48) by (nonlinear_arith)
            requires
                0 <= old_val as int <= 255,
                1 <= den as int <= 48,
        ;
        assert(-255 * 8 <= (e as int) * (num as int) <= 255 * 8) by (nonlinear_arith)
            requires
                -255 <= e as int <= 255,
                0 <= num as int <= 8,
        ;
    }
    let t: i32 = old_val as i32 * den as i32 + e as i32 * num as i32;
    let ghost a = (old_val as int) * (den as int) + (e as int) * (num as int);
    if t <= 0 {
        proof {
            if a == 0 {
                lemma_basic_div(den as int, 2 * (den as int));
            } else {
                lemma_div_pos_is_pos(2 * (-a) + den as int, 2 * (den as int));
            }
            assert(round_div(a, den as int) <= 0);
        }
        0
    } else {
        let tu: u32 = t as u32;
        let q: u32 = (2 * tu + den) / (2 * den);
        proof {
            assert(q as int == (2 * a + den as int) / (2 * (den as int)));
            assert(round_div(a, den as int) == q as int);
        }
        if q > 255 {
            255
        } else {
            q as u8
        }
    }
}

/// Entry of the base 2x2 Bayer index matrix.
pub open spec fn bayer_base(r: int, c: int) -> int {
    if r == 0 {
        if c == 0 {
            0
        } else {
            2
        }
    } else {
        if c == 0 {
            3
        } else {
            1
        }
    }
}

/// Side length of the Bayer matrix at recursion level `k` in `{1, 2, 3}`.
pub open spec fn bayer_size(k: int) -> int {
    if k <= 1 {
        2
    } else if k == 2 {
        4
    } else {
        8
    }
}

/// Entry `(r, c)` of the Bayer index matrix at level `k`: each level
/// scales the previous matrix by four and adds the base pattern over
/// 2x2 blocks.
pub open spec fn bayer_cell(k: int, r: int, c: int) -> int
    recommends
        1 <= k <= 3,
        0 <= r < bayer_size(k),
        0 <= c < bayer_size(k),
    decreases k,
{
    if k <= 1 {
        bayer_base(r, c)
    } else {
        let half = bayer_size(k - 1);
        4 * bayer_cell(k - 1, r % half, c % half) + bayer_base(r / half, c / half)
    }
}

/// A Bayer matrix at level `k` holds each index in `[0, size^2)` exactly
/// once; this bounds every entry.
pub proof fn lemma_bayer_range(k: int, r: int, c: int)
    requires
        1 <= k <= 3,
        0 <= r < bayer_size(k),
        0 <= c < bayer_size(k),
    ensures
        0 <= bayer_cell(k, r, c) < bayer_size(k) * bayer_size(k),
    decreases k,
{
    if k > 1 {
        let half = bayer_size(k - 1);
        lemma_bayer_range(k - 1, r % half, c % half);
    }
}

fn bayer_base_val(r: u32, c: u32) -> (v: u32)
    ensures
        v as int == bayer_base(r as int, c as int),
        v <= 3,
{
    if r == 0 {
        if c == 0 {
            0
        } else {
            2
        }
    } else {
        if c == 0 {
            3
        } else {
            1
        }
    }
}

/// Threshold index at position `(r, c)` of the level-`k` Bayer matrix.
pub fn bayer_threshold(k: u32, r: u32, c: u32) -> (t: u32)
    requires
        1 <= k <= 3,
        (r as int) < bayer_size(k as int),
        (c as int) < bayer_size(k as int),
    ensures
        t as int == bayer_cell(k as int, r as int, c as int),
        (t as int) < bayer_size(k as int) * bayer_size(k as int),
    decreases k,
{
    proof {
        lemma_bayer_range(k as int, r as int, c as int);
    }
    if k == 1 {
        bayer_base_val(r, c)
    } else {
        let half: u32 = if k == 2 {
            2
        } else {
            4
        };
        let rec = bayer_threshold(k - 1, r % half, c % half);
        let base = bayer_base_val(r / half, c / half);
        proof {
            lemma_bayer_range(k as int - 1, (r % half) as int, (c % half) as int);
        }
        4 * rec + base
    }
}

/// Recursion level of an ordered method's Bayer matrix.
pub open spec fn bayer_level(m: DitherMethod) -> int {
    match m {
        DitherMethod::Bayer4x4 => 2,
        DitherMethod::Bayer8x8 => 3,
        _ => 1,
    }
}

/// An ordered method biases a channel before matching: the threshold index
/// `t` out of `m2 = size^2` becomes the bias `round(255 * t / m2) - 128`,
/// added to the channel and clamped.
pub open spec fn ordered_adjust(v: int, t: int, m2: int) -> u8
    recommends
        m2 > 0,
{
    clamp255(v + round_div(255 * t, m2) - 128)
}

/// Biases one channel byte by the Bayer threshold; mirrors `ordered_adjust`.
fn adjust_channel(v: u8, t: u32, m2: u32) -> (r: u8)
    requires
        m2 == 4 || m2 == 16 || m2 == 64,
        t < m2,
    ensures
        r == ordered_adjust(v as int, t as int, m2 as int),
{
    let q: u32 = (510 * t + m2) / (2 * m2);
    proof {
        lemma_div_nonincreasing(510 * (t as int) + m2 as int, 2 * (m2 as int));
        assert(round_div(255 * (t as int), m2 as int) == q as int);
    }
    let adj: i32 = v as i32 + q as i32 - 128;
    if adj < 0 {
        0
    } else if adj > 255 {
        255
    } else {
        adj as u8
    }
}

/// The three bytes of pixel `(x, y)` read as a color.
pub open spec fn color_at(buf: Seq<u8>, i: int) -> Color {
    Color { r: buf[i], g: buf[i + 1], b: buf[i + 2] }
}

/// The buffer with the three bytes starting at `i` replaced by a color.
pub open spec fn write3(buf: Seq<u8>, i: int, c: Color) -> Seq<u8> {
    buf.update(i, c.r).update(i + 1, c.g).update(i + 2, c.b)
}

/// One neighbor update of the diffusion pass. Offset number `j` in
/// `0..15` names `(row_offset, col_offset) = (j / 5, j % 5 - 2)`. A
/// neighbor outside the image, or one with weight zero, is skipped.
pub open spec fn apply_offset(
    m: DitherMethod,
    buf: Seq<u8>,
    w: int,
    h: int,
    x: int,
    y: int,
    er: int,
    eg: int,
    eb: int,
    j: int,
) -> Seq<u8> {
    let dy = j / 5;
    let dx = j % 5 - 2;
    let nx = x + dx;
    let ny = y + dy;
    let num = weight_num(m, dy, dx);
    if 0 <= nx < w && ny < h && num != 0 {
        let i = 3 * (ny * w + nx);
        let den = weight_den(m);
        buf.update(i, apply_err_spec(buf[i] as int, er, num, den)).update(
            i + 1,
            apply_err_spec(buf[i + 1] as int, eg, num, den),
        ).update(i + 2, apply_err_spec(buf[i + 2] as int, eb, num, den))
    } else {
        buf
    }
}

/// The diffusion pass after the first `j` of the fifteen neighbor
/// offsets, applied in order.
pub open spec fn diffuse_upto(
    m: DitherMethod,
    buf: Seq<u8>,
    w: int,
    h: int,
    x: int,
    y: int,
    er: int,
    eg: int,
    eb: int,
    j: int,
) -> Seq<u8>
    decreases j,
{
    if j <= 0 {
        buf
    } else {
        apply_offset(
            m,
            diffuse_upto(m, buf, w, h, x, y, er, eg, eb, j - 1),
            w,
            h,
            x,
            y,
            er,
            eg,
            eb,
            j - 1,
        )
    }
}

/// One raster-scan step at pixel `(x, y)`: the pixel is overwritten with
/// its nearest palette color first, and only then is the quantization
/// error spread forward (for a diffusion method). An ordered method
/// instead biases the pixel by its positional threshold, matches, and
/// touches no neighbor.
pub open spec fn step_pixel(
    m: DitherMethod,
    pal: Seq<Color>,
    buf: Seq<u8>,
    w: int,
    h: int,
    x: int,
    y: int,
) -> Seq<u8> {
    let i = 3 * (y * w + x);
    let c = color_at(buf, i);
    if is_ordered(m) {
        let n = bayer_size(bayer_level(m));
        let t = bayer_cell(bayer_level(m), y % n, x % n);
        let adj = Color {
            r: ordered_adjust(c.r as int, t, n * n),
            g: ordered_adjust(c.g as int, t, n * n),
            b: ordered_adjust(c.b as int, t, n * n),
        };
        write3(buf, i, pal[nearest_index(adj, pal)])
    } else {
        let chosen = pal[nearest_index(c, pal)];
        let buf1 = write3(buf, i, chosen);
        if is_diffusion(m) {
            diffuse_upto(m, buf1, w, h, x, y, c.r - chosen.r, c.g - chosen.g, c.b - chosen.b, 15)
        } else {
            buf1
        }
    }
}

/// The buffer after the first `k` pixels of the raster scan (row-major,
/// top-to-bottom, left-to-right) have been processed.
pub open spec fn process_upto(
    m: DitherMethod,
    pal: Seq<Color>,
    buf: Seq<u8>,
    w: int,
    h: int,
    k: int,
) -> Seq<u8>
    decreases k,
{
    if k <= 0 {
        buf
    } else {
        step_pixel(
            m,
            pal,
            process_upto(m, pal, buf, w, h, k - 1),
            w,
            h,
            (k - 1) % w,
            (k - 1) / w,
        )
    }
}

/// The complete result of dithering a `w` by `h` buffer.
pub open spec fn dither_spec(
    m: DitherMethod,
    pal: Seq<Color>,
    buf: Seq<u8>,
    w: int,
    h: int,
) -> Seq<u8> {
    process_upto(m, pal, buf, w, h, w * h)
}

proof fn lemma_raster_index(w: int, h: int, x: int, y: int)
    requires
        0 <= x < w,
        0 <= y < h,
    ensures
        0 <= y * w + x,
        y * w + x < w * h,
{
    assert(0 <= y * w + x && y * w + x < w * h) by (nonlinear_arith)
        requires
            0 <= x < w,
            0 <= y < h,
    ;
}

/// Dithers `buffer` (row-major RGB, three bytes per pixel) in place,
/// quantizing every pixel to the selected palette with the selected
/// method. Fails with `InvalidGeometry`, leaving the buffer untouched,
/// exactly when the buffer length is not `width * height * 3`.
#[verifier::loop_isolation(false)]
pub fn dither(
    buffer: &mut Vec<u8>,
    dither_type: DitherMethod,
    color_palette: ColorPalette,
    width: u32,
    height: u32,
) -> (result: Result<(), DitherError>)
    ensures
        match result {
            Ok(()) => old(buffer)@.len() == 3 * (width as int * height as int)
                && final(buffer)@.len() == old(buffer)@.len() && final(buffer)@ == dither_spec(
                dither_type,
                palette_seq(color_palette),
                old(buffer)@,
                width as int,
                height as int,
            ),
            Err(e) => e == DitherError::InvalidGeometry && old(buffer)@.len() != 3 * (width as int
                * height as int) && final(buffer)@ == old(buffer)@,
        },
{
    let blen: usize = buffer.len();
    proof {
        assert(0 <= (width as int) * (height as int) <= 0xffff_ffff * 0xffff_ffff)
            by (nonlinear_arith)
            requires
                0 <= width as int <= 0xffff_ffff,
                0 <= height as int <= 0xffff_ffff,
        ;
    }
    let wh: u64 = width as u64 * height as u64;
    if blen as u64 / 3 != wh || blen as u64 % 3 != 0 {
        proof {
            vstd::arithmetic::div_mod::lemma_fundamental_div_mod(blen as int, 3);
            assert(blen as int != 3 * ((width as int) * (height as int)));
        }
        return Err(DitherError::InvalidGeometry);
    }
    proof {
        vstd::arithmetic::div_mod::lemma_fundamental_div_mod(blen as int, 3);
    }
    let palette = palette_colors(color_palette);
    let w: u64 = width as u64;
    let h: u64 = height as u64;
    let ghost wi = width as int;
    let ghost hi = height as int;
    let ghost pal = palette_seq(color_palette);
    let ghost buf0 = buffer@;
    proof {
        assert(3 * (wi * hi) == blen as int);
    }
    let mut y: u64 = 0;
    while y < h
        invariant
            y <= h,
            buffer@.len() == blen as int,
            buffer@ == process_upto(dither_type, pal, buf0, wi, hi, (y as int) * wi),
        decreases h - y,
    {
        let mut x: u64 = 0;
        while x < w
            invariant
                x <= w,
                y < h,
                buffer@.len() == blen as int,
                buffer@ == process_upto(dither_type, pal, buf0, wi, hi, (y as int) * wi + x as int),
            decreases w - x,
        {
            let ghost prev = buffer@;
            let ghost k = (y as int) * wi + (x as int);
            let ghost xi = x as int;
            let ghost yi = y as int;
            proof {
                lemma_raster_index(wi, hi, xi, yi);
            }
            let idx64: u64 = (y * w + x) * 3;
            let idx: usize = idx64 as usize;
            let cr = buffer[idx];
            let cg = buffer[idx + 1];
            let cb = buffer[idx + 2];
            let c = Color { r: cr, g: cg, b: cb };
            proof {
                assert(c == color_at(prev, idx as int));
            }
            match dither_type {
                DitherMethod::Bayer2x2 | DitherMethod::Bayer4x4 | DitherMethod::Bayer8x8 => {
                    let lvl: u32 = match dither_type {
                        DitherMethod::Bayer4x4 => 2,
                        DitherMethod::Bayer8x8 => 3,
                        _ => 1,
                    };
                    let n: u64 = match dither_type {
                        DitherMethod::Bayer4x4 => 4,
                        DitherMethod::Bayer8x8 => 8,
                        _ => 2,
                    };
                    proof {
                        assert(lvl as int == bayer_level(dither_type));
                        assert(n as int == bayer_size(lvl as int));
                    }
                    let t: u32 = bayer_threshold(lvl, (y % n) as u32, (x % n) as u32);
                    let m2: u32 = (n as u32) * (n as u32);
                    let ar = adjust_channel(cr, t, m2);
                    let ag = adjust_channel(cg, t, m2);
                    let ab = adjust_channel(cb, t, m2);
                    let adj = Color { r: ar, g: ag, b: ab };
                    let (chosen, _qe) = map_to_palette(adj, palette.as_slice());
                    buffer.set(idx, chosen.r);
                    buffer.set(idx + 1, chosen.g);
                    buffer.set(idx + 2, chosen.b);
                    proof {
                        assert(buffer@ == step_pixel(dither_type, pal, prev, wi, hi, xi, yi));
                    }
                },
                DitherMethod::NoDither => {
                    let (chosen, _qe) = map_to_palette(c, palette.as_slice());
                    buffer.set(idx, chosen.r);
                    buffer.set(idx + 1, chosen.g);
                    buffer.set(idx + 2, chosen.b);
                    proof {
                        assert(buffer@ == step_pixel(dither_type, pal, prev, wi, hi, xi, yi));
                    }
                },
                _ => {
                    let (chosen, qe) = map_to_palette(c, palette.as_slice());
                    buffer.set(idx, chosen.r);
                    buffer.set(idx + 1, chosen.g);
                    buffer.set(idx + 2, chosen.b);
                    let ghost buf1 = buffer@;
                    let ghost er = c.r - chosen.r;
                    let ghost eg = c.g - chosen.g;
                    let ghost eb = c.b - chosen.b;
                    proof {
                        assert(buf1 == write3(prev, idx as int, chosen));
                    }
                    let den = kernel_weight_den(dither_type);
                    let mut j: u64 = 0;
                    while j < 15
                        invariant
                            j <= 15,
                            buffer@.len() == blen as int,
                            buffer@ == diffuse_upto(
                                dither_type,
                                buf1,
                                wi,
                                hi,
                                xi,
                                yi,
                                er,
                                eg,
                                eb,
                                j as int,
                            ),
                        decreases 15 - j,
                    {
                        let ghost cur = buffer@;
                        let dy: u64 = j / 5;
                        let dxm: u64 = j % 5;
                        let num = kernel_weight_num(dither_type, dy as u32, dxm as i32 - 2);
                        let ny: u64 = y + dy;
                        if num != 0 && x + dxm >= 2 && x + dxm - 2 < w && ny < h {
                            let nx: u64 = x + dxm - 2;
                            proof {
                                lemma_raster_index(wi, hi, nx as int, ny as int);
                            }
                            let nidx64: u64 = (ny * w + nx) * 3;
                            let nidx: usize = nidx64 as usize;
                            let b0 = buffer[nidx];
                            let v0 = apply_err(b0, qe.r, num, den);
                            buffer.set(nidx, v0);
                            let b1 = buffer[nidx + 1];
                            let v1 = apply_err(b1, qe.g, num, den);
                            buffer.set(nidx + 1, v1);
                            let b2 = buffer[nidx + 2];
                            let v2 = apply_err(b2, qe.b, num, den);
                            buffer.set(nidx + 2, v2);
                            proof {
                                assert(buffer@ == apply_offset(
                                    dither_type,
                                    cur,
                                    wi,
                                    hi,
                                    xi,
                                    yi,
                                    er,
                                    eg,
                                    eb,
                                    j as int,
                                ));
                            }
                        } else {
                            proof {
                                assert(buffer@ == apply_offset(
                                    dither_type,
                                    cur,
                                    wi,
                                    hi,
                                    xi,
                                    yi,
                                    er,
                                    eg,
                                    eb,
                                    j as int,
                                ));
                            }
                        }
                        j += 1;
                    }
                    proof {
                        assert(buffer@ == step_pixel(dither_type, pal, prev, wi, hi, xi, yi));
                    }
                },
            }
            proof {
                lemma_fundamental_div_mod_converse(k, wi, yi, xi);
                assert(buffer@ == process_upto(dither_type, pal, buf0, wi, hi, k + 1));
            }
            x += 1;
        }
        proof {
            assert((y as int) * wi + wi == (y as int + 1) * wi) by (nonlinear_arith);
        }
        y += 1;
    }
    proof {
        assert((h as int) * wi == wi * hi);
    }
    Ok(())
}

} // verus!
