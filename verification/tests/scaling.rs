use libwayshot::binary64::{scale_coordinate, scale_length, scale_offset};

fn next(seed: &mut u64) -> u32 {
    *seed = seed.wrapping_mul(6364136223846793005).wrapping_add(1442695040888963407);
    (*seed >> 32) as u32
}

fn shorten(n: u32, seed: &mut u64) -> u32 {
    n >> (next(seed) % 32)
}

#[test]
fn coordinates_scale_as_doubles_do() {
    let mut seed = 1;
    for _ in 0..200_000 {
        let a = next(&mut seed) >> 1;
        let (b, c) = (next(&mut seed), next(&mut seed));
        let (a, b, c) = (shorten(a, &mut seed), shorten(b, &mut seed), shorten(c, &mut seed));
        assert_eq!(scale_coordinate(a, b, c), (a as f64 * b as f64 / c as f64) as i32);
    }
}

#[test]
fn lengths_scale_as_doubles_do() {
    let mut seed = 2;
    for _ in 0..200_000 {
        let (a, b, c) = (next(&mut seed), next(&mut seed), next(&mut seed));
        let (a, b, c) = (shorten(a, &mut seed), shorten(b, &mut seed), shorten(c, &mut seed));
        assert_eq!(scale_length(a, b, c), (a as f64 * b as f64 / c as f64) as u32);
    }
}

#[test]
fn large_equal_ratios_scale_as_doubles_do() {
    let mut seed = 3;
    for _ in 0..200_000 {
        let (a, b) = (next(&mut seed) | 0x8000_0000, next(&mut seed) | 0x8000_0000);
        assert_eq!(scale_length(a, b, b), (a as f64 * b as f64 / b as f64) as u32);
        assert_eq!(scale_length(b, a, a - 1), (b as f64 * a as f64 / (a - 1) as f64) as u32);
    }
}

#[test]
fn products_beyond_53_bits_are_rounded() {
    assert_eq!(scale_coordinate(1299179083, 1888959307, 1888959307), 1299179082);
    assert_eq!(scale_length(4242812034, 2550607500, 2550607500), 4242812033);
}

#[test]
fn exact_quotients_are_cut() {
    assert_eq!(scale_coordinate(7, 3, 2), 10);
    assert_eq!(scale_length(1920, 1280, 1920), 1280);
    assert_eq!(scale_length(u32::MAX, u32::MAX, 1), u32::MAX);
    assert_eq!(scale_coordinate(i32::MAX as u32, 3, 1), i32::MAX);
}

#[test]
fn division_by_zero_is_cut() {
    assert_eq!(scale_coordinate(5, 7, 0), i32::MAX);
    assert_eq!(scale_coordinate(0, 7, 0), 0);
    assert_eq!(scale_length(5, 7, 0), u32::MAX);
    assert_eq!(scale_length(5, 0, 0), 0);
}

#[test]
fn offsets_scale_as_doubles_do() {
    let mut seed = 4;
    for _ in 0..200_000 {
        let a = next(&mut seed) as i32;
        let b = next(&mut seed) as i32;
        let scale = next(&mut seed) >> 1;
        let scale = (shorten(scale, &mut seed) as i32).max(1);
        let expected = ((a as f64 - b as f64) * scale as f64) as i64;
        assert_eq!(scale_offset(a as i64 - b as i64, scale), expected);
    }
    assert_eq!(scale_offset(-3, 2), -6);
    assert_eq!(scale_offset(0xffff_ffff, i32::MAX), (0xffff_ffffu32 as f64 * i32::MAX as f64) as i64);
}
