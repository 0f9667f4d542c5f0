use dither_lib::dither::DitherMethod;
use dither_lib::dither::bayer_threshold;
use dither_lib::dither::kernel_weight_den;
use dither_lib::dither::kernel_weight_num;

const DIFFUSION_METHODS: [DitherMethod; 9] = [
    DitherMethod::FloydSteinberg,
    DitherMethod::Simple2D,
    DitherMethod::Jarvis,
    DitherMethod::Atkinson,
    DitherMethod::Stucki,
    DitherMethod::Burkes,
    DitherMethod::Sierra,
    DitherMethod::TwoRowSierra,
    DitherMethod::SierraLite,
];

fn grid_sum(m: DitherMethod) -> u32 {
    let mut sum = 0;
    for dy in 0..3u32 {
        for dx in -2..3i32 {
            sum += kernel_weight_num(m, dy, dx);
        }
    }
    sum
}

#[test]
fn kernel_sums_match_their_documented_constants() {
    let expected = [
        (DitherMethod::FloydSteinberg, 16, 16),
        (DitherMethod::Simple2D, 2, 2),
        (DitherMethod::Jarvis, 48, 48),
        (DitherMethod::Atkinson, 6, 8),
        (DitherMethod::Stucki, 42, 42),
        (DitherMethod::Burkes, 32, 32),
        (DitherMethod::Sierra, 32, 32),
        (DitherMethod::TwoRowSierra, 16, 16),
        (DitherMethod::SierraLite, 4, 4),
    ];
    for (m, sum, den) in expected {
        assert_eq!(grid_sum(m), sum);
        assert_eq!(kernel_weight_den(m), den);
        // Energy-preserving or energy-dissipating, never amplifying.
        assert!(sum <= den);
    }
}

#[test]
fn kernels_are_causal() {
    // No weight ever flows to a pixel already finalized by the scan:
    // the current row carries zero weight at and left of the current pixel.
    for m in DIFFUSION_METHODS {
        for dx in -2..1i32 {
            assert_eq!(kernel_weight_num(m, 0, dx), 0);
        }
    }
}

#[test]
fn floyd_steinberg_has_its_classic_fractions() {
    let m = DitherMethod::FloydSteinberg;
    assert_eq!(kernel_weight_num(m, 0, 1), 7);
    assert_eq!(kernel_weight_num(m, 1, -1), 3);
    assert_eq!(kernel_weight_num(m, 1, 0), 5);
    assert_eq!(kernel_weight_num(m, 1, 1), 1);
    assert_eq!(kernel_weight_den(m), 16);
}

#[test]
fn three_row_kernels_carry_their_classic_last_row() {
    let jarvis_row2 = [1, 3, 5, 3, 1];
    let stucki_row2 = [1, 2, 4, 2, 1];
    let sierra_row2 = [0, 2, 3, 2, 0];
    for (i, dx) in (-2..3i32).enumerate() {
        assert_eq!(kernel_weight_num(DitherMethod::Jarvis, 2, dx), jarvis_row2[i]);
        assert_eq!(kernel_weight_num(DitherMethod::Stucki, 2, dx), stucki_row2[i]);
        assert_eq!(kernel_weight_num(DitherMethod::Sierra, 2, dx), sierra_row2[i]);
    }
    assert_eq!(kernel_weight_num(DitherMethod::Atkinson, 2, 0), 1);
    // The two-row kernels stay two rows.
    for m in [
        DitherMethod::FloydSteinberg,
        DitherMethod::Simple2D,
        DitherMethod::Burkes,
        DitherMethod::TwoRowSierra,
        DitherMethod::SierraLite,
    ] {
        for dx in -2..3i32 {
            assert_eq!(kernel_weight_num(m, 2, dx), 0);
        }
    }
}

#[test]
fn no_dither_and_ordered_methods_have_empty_grids() {
    for m in [
        DitherMethod::NoDither,
        DitherMethod::Bayer2x2,
        DitherMethod::Bayer4x4,
        DitherMethod::Bayer8x8,
    ] {
        assert_eq!(grid_sum(m), 0);
    }
}

#[test]
fn bayer_2x2_matrix() {
    let expected = [[0, 2], [3, 1]];
    for r in 0..2u32 {
        for c in 0..2u32 {
            assert_eq!(bayer_threshold(1, r, c), expected[r as usize][c as usize]);
        }
    }
}

#[test]
fn bayer_4x4_matrix() {
    let expected = [[0, 8, 2, 10], [12, 4, 14, 6], [3, 11, 1, 9], [15, 7, 13, 5]];
    for r in 0..4u32 {
        for c in 0..4u32 {
            assert_eq!(bayer_threshold(2, r, c), expected[r as usize][c as usize]);
        }
    }
}

#[test]
fn bayer_8x8_matrix_holds_each_index_once() {
    let mut seen = [false; 64];
    for r in 0..8u32 {
        for c in 0..8u32 {
            let t = bayer_threshold(3, r, c) as usize;
            assert!(t < 64);
            assert!(!seen[t]);
            seen[t] = true;
        }
    }
    // Spot checks against the classic table.
    assert_eq!(bayer_threshold(3, 0, 1), 32);
    assert_eq!(bayer_threshold(3, 4, 0), 3);
    assert_eq!(bayer_threshold(3, 2, 0), 12);
    assert_eq!(bayer_threshold(3, 7, 7), 21);
}
