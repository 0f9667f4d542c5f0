//! Engine-level laws: statements that relate several of the engine's
//! functions, proved once and for all inputs.

use vstd::prelude::*;

use vstd::arithmetic::div_mod::lemma_fundamental_div_mod;
use vstd::arithmetic::div_mod::lemma_fundamental_div_mod_converse;

use crate::dither::DitherMethod;
use crate::dither::color_at;
use crate::dither::diffuse_upto;
use crate::dither::dither_spec;
use crate::dither::is_diffusion;
use crate::dither::is_ordered;
use crate::dither::kernel_num_sum;
use crate::dither::lemma_kernel_conservation;
use crate::dither::process_upto;
use crate::dither::step_pixel;
use crate::dither::weight_num;
use crate::dither::write3;
use crate::palette::Color;
use crate::palette::nearest_index;

verus! {

/// Channel `k` in `{0, 1, 2}` of a color.
pub open spec fn channel_of(c: Color, k: int) -> u8 {
    if k == 0 {
        c.r
    } else if k == 1 {
        c.g
    } else {
        c.b
    }
}

/// The buffer with every pixel independently replaced by its nearest
/// palette color and nothing else changed.
pub open spec fn map_only(pal: Seq<Color>, buf: Seq<u8>) -> Seq<u8> {
    Seq::new(
        buf.len(),
        |i: int| channel_of(pal[nearest_index(color_at(buf, 3 * (i / 3)), pal)], i % 3),
    )
}

proof fn lemma_no_dither_prefix(pal: Seq<Color>, buf: Seq<u8>, w: int, h: int, k: int)
    requires
        pal.len() > 0,
        w >= 0,
        h >= 0,
        buf.len() == 3 * (w * h),
        0 <= k <= w * h,
    ensures
        process_upto(DitherMethod::NoDither, pal, buf, w, h, k).len() == buf.len(),
        forall|i: int|
            3 * k <= i < buf.len() ==> #[trigger] process_upto(
                DitherMethod::NoDither,
                pal,
                buf,
                w,
                h,
                k,
            )[i] == buf[i],
        forall|i: int|
            0 <= i < 3 * k ==> #[trigger] process_upto(DitherMethod::NoDither, pal, buf, w, h, k)[i]
                == map_only(pal, buf)[i],
    decreases k,
{
    if k > 0 {
        lemma_no_dither_prefix(pal, buf, w, h, k - 1);
        let r0 = process_upto(DitherMethod::NoDither, pal, buf, w, h, k - 1);
        let x = (k - 1) % w;
        let y = (k - 1) / w;
        assert(w >= 1 && h >= 1) by (nonlinear_arith)
            requires
                w >= 0,
                h >= 0,
                w * h >= 1,
        ;
        lemma_fundamental_div_mod(k - 1, w);
        assert(0 <= x < w);
        assert(y < h) by (nonlinear_arith)
            requires
                y * w + x == k - 1,
                0 <= x < w,
                k - 1 < w * h,
                w > 0,
                h >= 0,
        ;
        assert(0 <= y * w + x && 3 * (y * w + x) + 2 < 3 * (w * h));
        let i0 = 3 * (y * w + x);
        assert(i0 == 3 * (k - 1));
        let c = color_at(r0, i0);
        assert(c == color_at(buf, i0));
        let chosen = pal[nearest_index(c, pal)];
        let r1 = process_upto(DitherMethod::NoDither, pal, buf, w, h, k);
        assert(r1 == step_pixel(DitherMethod::NoDither, pal, r0, w, h, x, y));
        assert(r1 == write3(r0, i0, chosen));
        assert((3 * (k - 1)) / 3 == k - 1 && (3 * (k - 1)) % 3 == 0 && (3 * (k - 1) + 1) / 3 == k
            - 1 && (3 * (k - 1) + 1) % 3 == 1 && (3 * (k - 1) + 2) / 3 == k - 1 && (3 * (k - 1)
            + 2) % 3 == 2) by {
            lemma_fundamental_div_mod_converse(3 * (k - 1), 3, k - 1, 0);
            lemma_fundamental_div_mod_converse(3 * (k - 1) + 1, 3, k - 1, 1);
            lemma_fundamental_div_mod_converse(3 * (k - 1) + 2, 3, k - 1, 2);
        }
        assert(map_only(pal, buf)[i0] == chosen.r);
        assert(map_only(pal, buf)[i0 + 1] == chosen.g);
        assert(map_only(pal, buf)[i0 + 2] == chosen.b);
    }
}

/// With no dithering, the output is byte-identical to the palette-matched
/// buffer: every pixel equals its nearest palette color, and no neighbor
/// is perturbed.
pub proof fn lemma_no_dither_is_map_only(pal: Seq<Color>, buf: Seq<u8>, w: int, h: int)
    requires
        pal.len() > 0,
        w >= 0,
        h >= 0,
        buf.len() == 3 * (w * h),
    ensures
        dither_spec(DitherMethod::NoDither, pal, buf, w, h) == map_only(pal, buf),
{
    lemma_no_dither_prefix(pal, buf, w, h, w * h);
    assert(dither_spec(DitherMethod::NoDither, pal, buf, w, h) =~= map_only(pal, buf));
}

proof fn lemma_diffuse_noop_single(
    m: DitherMethod,
    buf: Seq<u8>,
    er: int,
    eg: int,
    eb: int,
    j: int,
)
    requires
        0 <= j <= 15,
    ensures
        diffuse_upto(m, buf, 1, 1, 0, 0, er, eg, eb, j) == buf,
    decreases j,
{
    if j > 0 {
        lemma_diffuse_noop_single(m, buf, er, eg, eb, j - 1);
        lemma_kernel_conservation(m);
    }
}

/// A one-by-one image always maps to the single nearest palette color,
/// whatever the diffusion kernel: there are no neighbors to diffuse into.
pub proof fn lemma_single_pixel_maps_to_nearest(m: DitherMethod, pal: Seq<Color>, buf: Seq<u8>)
    requires
        pal.len() > 0,
        buf.len() == 3,
        !is_ordered(m),
    ensures
        dither_spec(m, pal, buf, 1, 1) == write3(
            buf,
            0,
            pal[nearest_index(color_at(buf, 0), pal)],
        ),
{
    let c = color_at(buf, 0);
    let chosen = pal[nearest_index(c, pal)];
    assert(process_upto(m, pal, buf, 1, 1, 0) == buf);
    assert(0int % 1 == 0 && 0int / 1 == 0) by {
        lemma_fundamental_div_mod_converse(0, 1, 0, 0);
    }
    assert(dither_spec(m, pal, buf, 1, 1) == process_upto(m, pal, buf, 1, 1, 1));
    assert(dither_spec(m, pal, buf, 1, 1) == step_pixel(m, pal, buf, 1, 1, 0, 0));
    if is_diffusion(m) {
        lemma_diffuse_noop_single(
            m,
            write3(buf, 0, chosen),
            c.r - chosen.r,
            c.g - chosen.g,
            c.b - chosen.b,
            15,
        );
    }
}

/// The weight numerator that offset number `j` of the diffusion pass
/// actually contributes from pixel `(x, y)`: zero when its neighbor
/// falls outside the image (strict clipping, no redistribution).
pub open spec fn offset_term(m: DitherMethod, w: int, h: int, x: int, y: int, j: int) -> int {
    let dy = j / 5;
    let dx = j % 5 - 2;
    if 0 <= x + dx < w && y + dy < h {
        weight_num(m, dy, dx)
    } else {
        0
    }
}

/// Total weight diffused from pixel `(x, y)` after boundary clipping.
pub open spec fn clipped_num_sum(m: DitherMethod, w: int, h: int, x: int, y: int) -> int {
    offset_term(m, w, h, x, y, 0) + offset_term(m, w, h, x, y, 1) + offset_term(m, w, h, x, y, 2)
        + offset_term(m, w, h, x, y, 3) + offset_term(m, w, h, x, y, 4) + offset_term(
        m,
        w,
        h,
        x,
        y,
        5,
    ) + offset_term(m, w, h, x, y, 6) + offset_term(m, w, h, x, y, 7) + offset_term(
        m,
        w,
        h,
        x,
        y,
        8,
    ) + offset_term(m, w, h, x, y, 9) + offset_term(m, w, h, x, y, 10) + offset_term(
        m,
        w,
        h,
        x,
        y,
        11,
    ) + offset_term(m, w, h, x, y, 12) + offset_term(m, w, h, x, y, 13) + offset_term(
        m,
        w,
        h,
        x,
        y,
        14,
    )
}

/// A pixel in the last column or last row only diffuses to neighbors that
/// exist: the clipped weight total stays below the kernel's full sum, so
/// part of the edge pixel's error is lost, never wrapped or reflected.
pub proof fn lemma_edge_pixel_diffuses_less(m: DitherMethod, w: int, h: int, x: int, y: int)
    requires
        is_diffusion(m),
        0 <= x < w,
        0 <= y < h,
        x == w - 1 || y == h - 1,
    ensures
        0 <= clipped_num_sum(m, w, h, x, y),
        clipped_num_sum(m, w, h, x, y) < kernel_num_sum(m),
{
    lemma_kernel_conservation(m);
    if x == w - 1 {
        assert(offset_term(m, w, h, x, y, 3) == 0);
    } else {
        assert(offset_term(m, w, h, x, y, 7) == 0);
    }
}

/// Clamp invariant: every byte of the dithered buffer lies in `[0, 255]`.
/// The buffer holds bytes throughout, and each diffusion update rounds and
/// clamps before storing.
pub proof fn lemma_output_bytes_in_range(
    m: DitherMethod,
    pal: Seq<Color>,
    buf: Seq<u8>,
    w: int,
    h: int,
)
    ensures
        forall|i: int|
            0 <= i < dither_spec(m, pal, buf, w, h).len() ==> 0 <= #[trigger] dither_spec(
                m,
                pal,
                buf,
                w,
                h,
            )[i] <= 255,
{
}

} // verus!
