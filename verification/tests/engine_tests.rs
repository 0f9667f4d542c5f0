use dither_lib::dither::DitherError;
use dither_lib::dither::DitherMethod;
use dither_lib::dither::dither;
use dither_lib::palette::ColorPalette;
use dither_lib::palette::map_to_palette;
use dither_lib::palette::palette_colors;

const ALL_METHODS: [DitherMethod; 13] = [
    DitherMethod::NoDither,
    DitherMethod::FloydSteinberg,
    DitherMethod::Simple2D,
    DitherMethod::Jarvis,
    DitherMethod::Atkinson,
    DitherMethod::Stucki,
    DitherMethod::Burkes,
    DitherMethod::Sierra,
    DitherMethod::TwoRowSierra,
    DitherMethod::SierraLite,
    DitherMethod::Bayer2x2,
    DitherMethod::Bayer4x4,
    DitherMethod::Bayer8x8,
];

#[test]
fn mid_gray_2x2_floyd_steinberg_gives_checkerboard() {
    // Regression fixture: 2x2 of (128,128,128) on the monochrome palette.
    let mut buf = vec![128u8; 12];
    let r = dither(&mut buf, DitherMethod::FloydSteinberg, ColorPalette::Monochrome, 2, 2);
    assert_eq!(r, Ok(()));
    assert_eq!(buf, vec![255, 255, 255, 0, 0, 0, 0, 0, 0, 255, 255, 255]);
}

#[test]
fn single_pixel_never_crashes_and_maps_to_black() {
    // (10,200,30) is nearest to black of the monochrome palette, both
    // as-is (diffusion methods have no neighbor to touch) and after any
    // Bayer threshold bias.
    for m in ALL_METHODS {
        let mut buf = vec![10u8, 200, 30];
        let r = dither(&mut buf, m, ColorPalette::Monochrome, 1, 1);
        assert_eq!(r, Ok(()));
        assert_eq!(buf, vec![0, 0, 0]);
    }
}

#[test]
fn no_dither_equals_pixelwise_palette_match() {
    let pixels: [[u8; 3]; 6] =
        [[3, 9, 250], [200, 13, 77], [128, 128, 128], [255, 0, 255], [16, 230, 40], [90, 90, 90]];
    let mut buf: Vec<u8> = pixels.iter().flatten().copied().collect();
    let r = dither(&mut buf, DitherMethod::NoDither, ColorPalette::COLOR8, 3, 2);
    assert_eq!(r, Ok(()));
    let pal = palette_colors(ColorPalette::COLOR8);
    for (p, px) in pixels.iter().enumerate() {
        let c = dither_lib::palette::Color { r: px[0], g: px[1], b: px[2] };
        let (chosen, _) = map_to_palette(c, pal.as_slice());
        assert_eq!(buf[3 * p], chosen.r);
        assert_eq!(buf[3 * p + 1], chosen.g);
        assert_eq!(buf[3 * p + 2], chosen.b);
    }
}

#[test]
fn wrong_buffer_length_is_invalid_geometry() {
    for m in ALL_METHODS {
        let mut buf = vec![128u8; 11];
        let r = dither(&mut buf, m, ColorPalette::Monochrome, 2, 2);
        assert_eq!(r, Err(DitherError::InvalidGeometry));
        assert_eq!(buf, vec![128u8; 11]);
    }
}

#[test]
fn empty_image_is_a_no_op() {
    let mut buf: Vec<u8> = Vec::new();
    for m in ALL_METHODS {
        assert_eq!(dither(&mut buf, m, ColorPalette::COLOR16, 0, 0), Ok(()));
        assert!(buf.is_empty());
    }
    // Zero area with a non-empty buffer is a geometry error.
    let mut bad = vec![1u8, 2, 3];
    assert_eq!(
        dither(&mut bad, DitherMethod::FloydSteinberg, ColorPalette::Monochrome, 0, 3),
        Err(DitherError::InvalidGeometry)
    );
}

#[test]
fn last_column_pixel_only_diffuses_downward() {
    // 2x1: the right pixel has no in-bounds neighbor at all, the left one
    // only its right neighbor. Mid-gray goes white then black.
    let mut row = vec![128u8; 6];
    assert_eq!(dither(&mut row, DitherMethod::FloydSteinberg, ColorPalette::Monochrome, 2, 1), Ok(()));
    assert_eq!(row, vec![255, 255, 255, 0, 0, 0]);
}

#[test]
fn last_row_pixel_only_diffuses_rightward() {
    // 1x2: only the below neighbor exists for the top pixel.
    let mut col = vec![128u8; 6];
    assert_eq!(dither(&mut col, DitherMethod::FloydSteinberg, ColorPalette::Monochrome, 1, 2), Ok(()));
    assert_eq!(col, vec![255, 255, 255, 0, 0, 0]);
}

#[test]
fn diffusion_clamps_updates_into_byte_range() {
    // The first pixel overshoots to white; its large negative error would
    // push the dark right neighbor below zero, which clamps to 0.
    let mut buf = vec![128u8, 128, 128, 10, 10, 10];
    assert_eq!(dither(&mut buf, DitherMethod::FloydSteinberg, ColorPalette::Monochrome, 2, 1), Ok(()));
    assert_eq!(buf, vec![255, 255, 255, 0, 0, 0]);
}

#[test]
fn mid_gray_2x3_jarvis_diffuses_into_its_third_row() {
    // The top-left pixel reaches row offset 2 with weights 5/48 and 3/48;
    // the pattern below is the regression fixture of the full kernel.
    let mut buf = vec![128u8; 18];
    let r = dither(&mut buf, DitherMethod::Jarvis, ColorPalette::Monochrome, 2, 3);
    assert_eq!(r, Ok(()));
    let grays: Vec<u8> = (0..6).map(|p| buf[3 * p]).collect();
    assert_eq!(grays, vec![255, 0, 0, 255, 255, 0]);
    assert_eq!(buf[..3], [255, 255, 255]);
}

#[test]
fn mid_gray_2x3_atkinson_diffuses_into_its_third_row() {
    let mut buf = vec![128u8; 18];
    let r = dither(&mut buf, DitherMethod::Atkinson, ColorPalette::Monochrome, 2, 3);
    assert_eq!(r, Ok(()));
    let grays: Vec<u8> = (0..6).map(|p| buf[3 * p]).collect();
    assert_eq!(grays, vec![255, 0, 0, 255, 0, 255]);
}

#[test]
fn bayer_2x2_mid_gray_gives_inverted_checkerboard() {
    // Thresholds 0,2,3,1 bias mid-gray down, up, up, down.
    let mut buf = vec![128u8; 12];
    let r = dither(&mut buf, DitherMethod::Bayer2x2, ColorPalette::Monochrome, 2, 2);
    assert_eq!(r, Ok(()));
    assert_eq!(buf, vec![0, 0, 0, 255, 255, 255, 255, 255, 255, 0, 0, 0]);
}

#[test]
fn every_method_outputs_only_palette_colors() {
    let pixels: Vec<u8> = (0u32..48).map(|i| ((i * 37 + 11) % 256) as u8).collect();
    let pal = palette_colors(ColorPalette::COLOR16);
    for m in ALL_METHODS {
        let mut buf = pixels.clone();
        assert_eq!(dither(&mut buf, m, ColorPalette::COLOR16, 4, 4), Ok(()));
        for p in 0..16 {
            let c = dither_lib::palette::Color {
                r: buf[3 * p],
                g: buf[3 * p + 1],
                b: buf[3 * p + 2],
            };
            assert!(pal.contains(&c));
        }
    }
}
