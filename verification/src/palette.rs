//! Fixed color palettes and the nearest-color matcher.

use vstd::prelude::*;

use crate::dither::QuantizationError;

verus! {

/// Selector for one of the built-in palettes.
#[allow(non_camel_case_types)]
#[derive(Clone, Copy, Debug, PartialEq, Eq, Structural)]
pub enum ColorPalette {
    Monochrome,
    COLOR8,
    COLOR16,
}

/// One 24-bit RGB color, 8 bits per channel.
#[derive(Clone, Copy, Debug, PartialEq, Eq, Structural)]
pub struct Color {
    pub r: u8,
    pub g: u8,
    pub b: u8,
}

impl From<u32> for Color {
    /// Unpacks `0x00RRGGBB` into its three channels.
    fn from(v: u32) -> (c: Color) {
        Color { r: ((v >> 16) & 0xFF) as u8, g: ((v >> 8) & 0xFF) as u8, b: (v & 0xFF) as u8 }
    }
}

impl vstd::std_specs::convert::FromSpecImpl<u32> for Color {
    open spec fn obeys_from_spec() -> bool {
        true
    }

    open spec fn from_spec(v: u32) -> Color {
        Color { r: ((v >> 16) & 0xFF) as u8, g: ((v >> 8) & 0xFF) as u8, b: (v & 0xFF) as u8 }
    }
}

pub open spec fn sq(x: int) -> int {
    x * x
}

/// Squared Euclidean distance between two colors in RGB space. The square
/// root is never taken: only the relative order of distances matters.
pub open spec fn dist2(a: Color, b: Color) -> int {
    sq(a.r - b.r) + sq(a.g - b.g) + sq(a.b - b.b)
}

/// Index of the palette entry nearest to `c`; on ties the earliest index
/// wins (first-match-wins over a stable linear scan).
pub open spec fn nearest_index(c: Color, pal: Seq<Color>) -> int
    recommends
        pal.len() > 0,
    decreases pal.len(),
{
    if pal.len() <= 1 {
        0
    } else {
        let prev = nearest_index(c, pal.drop_last());
        if dist2(c, pal.last()) < dist2(c, pal[prev]) {
            pal.len() - 1
        } else {
            prev
        }
    }
}

/// Nearest-color correctness and tie-break determinism: `nearest_index`
/// names an entry of the palette, no entry is strictly closer, and every
/// earlier entry is strictly farther.
pub proof fn lemma_nearest_index_properties(c: Color, pal: Seq<Color>)
    requires
        pal.len() > 0,
    ensures
        0 <= nearest_index(c, pal) < pal.len(),
        forall|j: int|
            0 <= j < pal.len() ==> dist2(c, pal[nearest_index(c, pal)]) <= dist2(
                c,
                #[trigger] pal[j],
            ),
        forall|j: int|
            0 <= j < nearest_index(c, pal) ==> dist2(c, pal[nearest_index(c, pal)]) < dist2(
                c,
                #[trigger] pal[j],
            ),
    decreases pal.len(),
{
    if pal.len() > 1 {
        let dl = pal.drop_last();
        let prev = nearest_index(c, dl);
        let ni = nearest_index(c, pal);
        lemma_nearest_index_properties(c, dl);
        assert(forall|j: int| 0 <= j < pal.len() - 1 ==> #[trigger] pal[j] == dl[j]);
        assert(pal.last() == pal[pal.len() - 1]);
        if dist2(c, pal.last()) < dist2(c, dl[prev]) {
            assert(ni == pal.len() - 1);
            assert(forall|j: int|
                0 <= j < pal.len() ==> dist2(c, pal[ni]) <= dist2(c, #[trigger] pal[j]));
            assert(forall|j: int|
                0 <= j < ni ==> dist2(c, pal[ni]) < dist2(c, #[trigger] pal[j]));
        } else {
            assert(ni == prev);
            assert(dist2(c, pal[ni]) <= dist2(c, pal[pal.len() - 1]));
            assert(forall|j: int|
                0 <= j < pal.len() ==> dist2(c, pal[ni]) <= dist2(c, #[trigger] pal[j]));
            assert(forall|j: int|
                0 <= j < ni ==> dist2(c, pal[ni]) < dist2(c, #[trigger] pal[j]));
        }
    }
}

/// The entries of each built-in palette, in table order.
pub open spec fn palette_seq(p: ColorPalette) -> Seq<Color> {
    match p {
        ColorPalette::Monochrome => seq![
            Color { r: 0x00, g: 0x00, b: 0x00 },
            Color { r: 0xff, g: 0xff, b: 0xff },
        ],
        ColorPalette::COLOR8 => seq![
            Color { r: 0x00, g: 0x00, b: 0x00 },
            Color { r: 0xcc, g: 0x35, b: 0x00 },
            Color { r: 0x5e, g: 0xc8, b: 0x09 },
            Color { r: 0x1d, g: 0x28, b: 0x6f },
            Color { r: 0x00, g: 0xc4, b: 0xff },
            Color { r: 0x8e, g: 0x8e, b: 0x8e },
            Color { r: 0xff, g: 0xe0, b: 0x52 },
            Color { r: 0xff, g: 0xff, b: 0xff },
        ],
        ColorPalette::COLOR16 => seq![
            Color { r: 0x00, g: 0x00, b: 0x00 },
            Color { r: 0x9d, g: 0x9d, b: 0x9d },
            Color { r: 0xff, g: 0xff, b: 0xff },
            Color { r: 0xbe, g: 0x26, b: 0x33 },
            Color { r: 0xe0, g: 0x6f, b: 0x8b },
            Color { r: 0x49, g: 0x3c, b: 0x2b },
            Color { r: 0xa4, g: 0x64, b: 0x22 },
            Color { r: 0xeb, g: 0x89, b: 0x31 },
            Color { r: 0xf7, g: 0xe2, b: 0x6b },
            Color { r: 0x2f, g: 0x48, b: 0x4e },
            Color { r: 0x44, g: 0x89, b: 0x1a },
            Color { r: 0xa3, g: 0xce, b: 0x27 },
            Color { r: 0x1b, g: 0x26, b: 0x32 },
            Color { r: 0x00, g: 0x57, b: 0x84 },
            Color { r: 0x31, g: 0xa2, b: 0xf2 },
            Color { r: 0xb2, g: 0xdc, b: 0xef },
        ],
    }
}

/// Builds the selected palette as a vector of colors, in table order.
pub fn palette_colors(p: ColorPalette) -> (v: Vec<Color>)
    ensures
        v@ == palette_seq(p),
        v@.len() > 0,
{
    let mut v: Vec<Color> = Vec::new();
    match p {
        ColorPalette::Monochrome => {
            v.push(Color { r: 0x00, g: 0x00, b: 0x00 });
            v.push(Color { r: 0xff, g: 0xff, b: 0xff });
        },
        ColorPalette::COLOR8 => {
            v.push(Color { r: 0x00, g: 0x00, b: 0x00 });
            v.push(Color { r: 0xcc, g: 0x35, b: 0x00 });
            v.push(Color { r: 0x5e, g: 0xc8, b: 0x09 });
            v.push(Color { r: 0x1d, g: 0x28, b: 0x6f });
            v.push(Color { r: 0x00, g: 0xc4, b: 0xff });
            v.push(Color { r: 0x8e, g: 0x8e, b: 0x8e });
            v.push(Color { r: 0xff, g: 0xe0, b: 0x52 });
            v.push(Color { r: 0xff, g: 0xff, b: 0xff });
        },
        ColorPalette::COLOR16 => {
            v.push(Color { r: 0x00, g: 0x00, b: 0x00 });
            v.push(Color { r: 0x9d, g: 0x9d, b: 0x9d });
            v.push(Color { r: 0xff, g: 0xff, b: 0xff });
            v.push(Color { r: 0xbe, g: 0x26, b: 0x33 });
            v.push(Color { r: 0xe0, g: 0x6f, b: 0x8b });
            v.push(Color { r: 0x49, g: 0x3c, b: 0x2b });
            v.push(Color { r: 0xa4, g: 0x64, b: 0x22 });
            v.push(Color { r: 0xeb, g: 0x89, b: 0x31 });
            v.push(Color { r: 0xf7, g: 0xe2, b: 0x6b });
            v.push(Color { r: 0x2f, g: 0x48, b: 0x4e });
            v.push(Color { r: 0x44, g: 0x89, b: 0x1a });
            v.push(Color { r: 0xa3, g: 0xce, b: 0x27 });
            v.push(Color { r: 0x1b, g: 0x26, b: 0x32 });
            v.push(Color { r: 0x00, g: 0x57, b: 0x84 });
            v.push(Color { r: 0x31, g: 0xa2, b: 0xf2 });
            v.push(Color { r: 0xb2, g: 0xdc, b: 0xef });
        },
    }
    proof {
        assert(v@ =~= palette_seq(p));
    }
    v
}

/// Squared distance between two colors, computed exactly in integers.
fn color_dist2(a: Color, b: Color) -> (d: u32)
    ensures
        d as int == dist2(a, b),
{
    let dr: i32 = a.r as i32 - b.r as i32;
    let dg: i32 = a.g as i32 - b.g as i32;
    let db: i32 = a.b as i32 - b.b as i32;
    proof {
        assert(0 <= dr * dr <= 65025 && 0 <= dg * dg <= 65025 && 0 <= db * db <= 65025)
            by (nonlinear_arith)
            requires
                -255 <= dr <= 255,
                -255 <= dg <= 255,
                -255 <= db <= 255,
        ;
    }
    (dr * dr + dg * dg + db * db) as u32
}

/// Finds the palette entry nearest to `orig_color` by a stable linear scan
/// (first entry wins on equal distances) and returns it together with the
/// signed per-channel quantization error `original - chosen`.
pub fn map_to_palette(orig_color: Color, palette: &[Color]) -> (res: (Color, QuantizationError))
    requires
        palette@.len() > 0,
    ensures
        res.0 == palette@[nearest_index(orig_color, palette@)],
        forall|j: int|
            0 <= j < palette@.len() ==> dist2(orig_color, res.0) <= dist2(
                orig_color,
                #[trigger] palette@[j],
            ),
        res.1.r as int == orig_color.r - res.0.r,
        res.1.g as int == orig_color.g - res.0.g,
        res.1.b as int == orig_color.b - res.0.b,
{
    let n = palette.len();
    let mut best: usize = 0;
    let mut best_dist: u32 = color_dist2(orig_color, *vstd::slice::slice_index_get(palette, 0));
    let mut i: usize = 1;
    proof {
        assert(palette@.take(1).len() == 1);
        assert(palette@.take(1)[0] == palette@[0]);
    }
    while i < n
        invariant
            1 <= i <= n,
            n == palette@.len(),
            best < i,
            best as int == nearest_index(orig_color, palette@.take(i as int)),
            best_dist as int == dist2(orig_color, palette@[best as int]),
        decreases n - i,
    {
        let d = color_dist2(orig_color, *vstd::slice::slice_index_get(palette, i));
        proof {
            assert(palette@.take(i + 1).drop_last() =~= palette@.take(i as int));
            assert(palette@.take(i + 1).last() == palette@[i as int]);
            assert(forall|j: int|
                0 <= j < i + 1 ==> #[trigger] palette@.take(i + 1)[j] == palette@[j]);
            lemma_nearest_index_properties(orig_color, palette@.take(i + 1));
        }
        if d < best_dist {
            best = i;
            best_dist = d;
        }
        i += 1;
    }
    proof {
        assert(palette@.take(n as int) =~= palette@);
        lemma_nearest_index_properties(orig_color, palette@);
    }
    let chosen = *vstd::slice::slice_index_get(palette, best);
    let qe = QuantizationError {
        r: orig_color.r as i16 - chosen.r as i16,
        g: orig_color.g as i16 - chosen.g as i16,
        b: orig_color.b as i16 - chosen.b as i16,
    };
    (chosen, qe)
}

} // verus!
