use dither_lib::palette::Color;
use dither_lib::palette::ColorPalette;
use dither_lib::palette::map_to_palette;
use dither_lib::palette::palette_colors;

fn dist2(a: &Color, b: &Color) -> i64 {
    let dr = a.r as i64 - b.r as i64;
    let dg = a.g as i64 - b.g as i64;
    let db = a.b as i64 - b.b as i64;
    dr * dr + dg * dg + db * db
}

#[test]
fn palette_tables_have_documented_entries() {
    let mono = palette_colors(ColorPalette::Monochrome);
    assert_eq!(mono.len(), 2);
    assert_eq!(mono[0], Color { r: 0, g: 0, b: 0 });
    assert_eq!(mono[1], Color { r: 255, g: 255, b: 255 });

    let c8 = palette_colors(ColorPalette::COLOR8);
    assert_eq!(c8.len(), 8);
    assert_eq!(c8[1], Color { r: 0xcc, g: 0x35, b: 0x00 });
    assert_eq!(c8[7], Color { r: 0xff, g: 0xff, b: 0xff });

    let c16 = palette_colors(ColorPalette::COLOR16);
    assert_eq!(c16.len(), 16);
    assert_eq!(c16[3], Color { r: 0xbe, g: 0x26, b: 0x33 });
    assert_eq!(c16[15], Color { r: 0xb2, g: 0xdc, b: 0xef });
}

#[test]
fn match_returns_a_palette_member_at_minimal_distance() {
    let samples = [
        Color { r: 0, g: 0, b: 0 },
        Color { r: 255, g: 255, b: 255 },
        Color { r: 128, g: 128, b: 128 },
        Color { r: 10, g: 200, b: 30 },
        Color { r: 190, g: 40, b: 60 },
        Color { r: 33, g: 160, b: 240 },
    ];
    for palette in [ColorPalette::Monochrome, ColorPalette::COLOR8, ColorPalette::COLOR16] {
        let pal = palette_colors(palette);
        for c in &samples {
            let (chosen, qe) = map_to_palette(*c, pal.as_slice());
            assert!(pal.contains(&chosen));
            for other in &pal {
                assert!(dist2(c, &chosen) <= dist2(c, other));
            }
            assert_eq!(qe.r as i64, c.r as i64 - chosen.r as i64);
            assert_eq!(qe.g as i64, c.g as i64 - chosen.g as i64);
            assert_eq!(qe.b as i64, c.b as i64 - chosen.b as i64);
        }
    }
}

#[test]
fn tie_break_picks_the_earlier_entry() {
    let c = Color { r: 100, g: 0, b: 0 };
    let low = Color { r: 90, g: 0, b: 0 };
    let high = Color { r: 110, g: 0, b: 0 };
    // Both entries are at squared distance 100 from c.
    let pal = vec![low, high];
    for _ in 0..3 {
        let (chosen, _) = map_to_palette(c, pal.as_slice());
        assert_eq!(chosen, low);
    }
    let pal_rev = vec![high, low];
    for _ in 0..3 {
        let (chosen, _) = map_to_palette(c, pal_rev.as_slice());
        assert_eq!(chosen, high);
    }
}

#[test]
fn match_on_mid_gray_prefers_white_of_monochrome() {
    let pal = palette_colors(ColorPalette::Monochrome);
    let (chosen, qe) = map_to_palette(Color { r: 128, g: 128, b: 128 }, pal.as_slice());
    assert_eq!(chosen, Color { r: 255, g: 255, b: 255 });
    assert_eq!((qe.r, qe.g, qe.b), (-127, -127, -127));
}

#[test]
fn color_from_packed_u32_unpacks_channels() {
    assert_eq!(Color::from(0x00aabbcc), Color { r: 0xaa, g: 0xbb, b: 0xcc });
    assert_eq!(Color::from(0), Color { r: 0, g: 0, b: 0 });
    assert_eq!(Color::from(0x00ffffff), Color { r: 255, g: 255, b: 255 });
}
