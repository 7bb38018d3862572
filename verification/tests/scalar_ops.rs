use rusterer::fx::{fx_cos, fx_div, fx_mul, fx_round, fx_sin, isqrt_u128, FX_ONE, FX_PI, FX_TWO_PI};
use rusterer::geometry::{vector_length, vector_normalize, Vec3d};

#[test]
fn fx_mul_exact_values() {
    // 1.5 * 2.0 == 3.0
    assert_eq!(fx_mul(98304, 131072), 196608);
    // (-1.5) * 2.0 == -3.0, truncation toward zero on the magnitude
    assert_eq!(fx_mul(-98304, 131072), -196608);
    // 3 * 3 in raw units: 9 * 65536ths scale down
    assert_eq!(fx_mul(3, 3), 0);
    assert_eq!(fx_mul(FX_ONE, 12345), 12345);
    assert_eq!(fx_mul(0, 999999), 0);
}

#[test]
fn fx_div_exact_values() {
    assert_eq!(fx_div(196608, 131072), 98304);
    assert_eq!(fx_div(FX_ONE, 131072), 32768);
    assert_eq!(fx_div(-FX_ONE, 131072), -32768);
    // truncation toward zero: 1/3 in raw units
    assert_eq!(fx_div(FX_ONE, 3 * FX_ONE), 21845);
    assert_eq!(fx_div(-FX_ONE, 3 * FX_ONE), -21845);
}

#[test]
fn fx_round_half_away_from_zero() {
    assert_eq!(fx_round(32768), 1);
    assert_eq!(fx_round(32767), 0);
    assert_eq!(fx_round(-32768), -1);
    assert_eq!(fx_round(-32767), 0);
    assert_eq!(fx_round(3 * 65536 + 40000), 4);
}

#[test]
fn isqrt_is_exact() {
    assert_eq!(isqrt_u128(0), 0);
    assert_eq!(isqrt_u128(1), 1);
    assert_eq!(isqrt_u128(3), 1);
    assert_eq!(isqrt_u128(4), 2);
    assert_eq!(isqrt_u128(999999), 999);
    assert_eq!(isqrt_u128(1000000), 1000);
    let r = isqrt_u128(0x3fff_ffff_ffff_ffff_ffff);
    assert!(r * r <= 0x3fff_ffff_ffff_ffff_ffff);
    assert!((r + 1) * (r + 1) > 0x3fff_ffff_ffff_ffff_ffff);
}

#[test]
fn sine_and_cosine_match_reference() {
    for k in -20i64..20 {
        let x = k * 20000; // about -6.1 .. 6.1 radians
        let xf = (x as f64) / 65536.0;
        let sf = (fx_sin(x) as f64) / 65536.0;
        let cf = (fx_cos(x) as f64) / 65536.0;
        assert!((sf - xf.sin()).abs() < 0.005, "sin({}) = {} vs {}", xf, sf, xf.sin());
        assert!((cf - xf.cos()).abs() < 0.005, "cos({}) = {} vs {}", xf, cf, xf.cos());
    }
    assert_eq!(fx_sin(0), 0);
}

#[test]
fn sine_repeats_after_a_full_turn() {
    for k in -5i64..6 {
        let x = k * 33333;
        assert_eq!(fx_sin(x), fx_sin(x + FX_TWO_PI));
        assert_eq!(fx_sin(x), fx_sin(x - FX_TWO_PI));
    }
    // the sine near a half turn is near zero
    assert!(fx_sin(FX_PI).abs() < 64);
}

#[test]
fn normalized_vectors_have_unit_length() {
    // length(normalize(v)) is within a small tolerance of one
    let samples = [
        (FX_ONE, 0, 0),
        (0, FX_ONE, 0),
        (3 * FX_ONE, 4 * FX_ONE, 0),
        (FX_ONE, FX_ONE, FX_ONE),
        (-7 * FX_ONE, 2 * FX_ONE, 9 * FX_ONE),
        (123456, -654321, 42),
        (1000 * FX_ONE, -1000 * FX_ONE, 500 * FX_ONE),
    ];
    for &(x, y, z) in samples.iter() {
        let v = Vec3d { x, y, z, w: FX_ONE };
        let n = vector_normalize(&v);
        let l = vector_length(&n);
        assert!(
            (l - FX_ONE).abs() <= 4,
            "length of normalized ({}, {}, {}) was {}",
            x,
            y,
            z,
            l
        );
    }
}
