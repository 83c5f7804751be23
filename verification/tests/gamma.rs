use photoflow::bignat::BigNat;
use photoflow::detector::ImageType;
use photoflow::gamma::{gamma_tenths, GammaCurve, GammaEncoder, GammaTable, TABLE_FROM};

fn expected(n: u64, d: u64, gamma: f64) -> u8 {
    let light = (n as f64 / d as f64).min(1.0);
    (light.powf(1.0 / gamma) * 255.0).round() as u8
}

#[test]
fn gamma_by_sensor_family() {
    assert_eq!(gamma_tenths(ImageType::RawFuji), 24);
    assert_eq!(gamma_tenths(ImageType::RawCanon), 21);
    assert_eq!(gamma_tenths(ImageType::RawNikon), 22);
    assert_eq!(gamma_tenths(ImageType::RawSony), 22);
    assert_eq!(gamma_tenths(ImageType::RawPanasonic), 22);
    assert_eq!(gamma_tenths(ImageType::RawGeneric), 22);
    assert_eq!(gamma_tenths(ImageType::Unknown), 22);
}

#[test]
fn curve_ends() {
    for tenths in [21u32, 22, 24] {
        let curve = GammaCurve::new(65535, tenths);
        assert_eq!(curve.encode(0), 0);
        assert_eq!(curve.encode(65535), 255);
        assert_eq!(curve.encode(70000), 255);
        assert_eq!(curve.encode(u64::MAX), 255);
    }
}

#[test]
fn half_light_under_each_gamma() {
    assert_eq!(GammaCurve::new(2, 22).encode(1), 186);
    assert_eq!(GammaCurve::new(2, 24).encode(1), 191);
    assert_eq!(GammaCurve::new(2, 21).encode(1), 183);
}

#[test]
fn curve_matches_the_formula_for_sixteen_bit_light() {
    let curve = GammaCurve::new(65535, 22);
    let mut v: u64 = 0;
    while v <= 65535 {
        assert_eq!(curve.encode(v), expected(v, 65535, 2.2), "v = {}", v);
        v += 97;
    }
    for v in 0..300u64 {
        assert_eq!(curve.encode(v), expected(v, 65535, 2.2), "v = {}", v);
    }
}

#[test]
fn curve_matches_the_formula_for_other_gammas_and_units() {
    for (tenths, gamma) in [(21u32, 2.1f64), (24, 2.4), (10, 1.0), (18, 1.8)] {
        for d in [1u64, 7, 255, 1023, 4095, 16383] {
            let curve = GammaCurve::new(d, tenths);
            let step = (d / 50).max(1);
            let mut n = 0;
            while n <= d {
                assert_eq!(curve.encode(n), expected(n, d, gamma), "n = {}, d = {}", n, d);
                n += step;
            }
        }
    }
}

#[test]
fn curve_takes_large_units() {
    let d: u64 = 0xFFFF * 0xFFFF_FFFF;
    let curve = GammaCurve::new(d, 22);
    assert_eq!(curve.encode(d), 255);
    assert_eq!(curve.encode(d / 2), expected(1, 2, 2.2));
    assert_eq!(curve.encode(d / 1000), expected(1, 1000, 2.2));
    assert_eq!(curve.encode(0), 0);
}

#[test]
fn curve_is_monotonic() {
    let curve = GammaCurve::new(1000, 24);
    let mut last = 0u8;
    for n in 0..=1000u64 {
        let b = curve.encode(n);
        assert!(b >= last);
        last = b;
    }
    assert_eq!(last, 255);
}

#[test]
fn zero_unit_encodes_to_white() {
    assert_eq!(GammaCurve::new(0, 22).encode(0), 255);
    assert_eq!(GammaCurve::new(0, 22).encode(5), 255);
}

#[test]
fn big_numbers_multiply_and_compare() {
    let one = BigNat::from_u64(1);
    let max = BigNat::from_u64(u64::MAX);
    let square = max.mul_small(u64::MAX);
    assert!(one.le(&max));
    assert!(!max.le(&one));
    assert!(max.le(&square));
    assert!(!square.le(&max));
    assert!(square.le(&square));
    let a = BigNat::from_u64(3).mul_small(1 << 63).mul_small(4);
    let b = BigNat::from_u64(6).mul_small(1 << 63).mul_small(2);
    assert!(a.le(&b) && b.le(&a));
    let zero = BigNat::from_u64(5).mul_small(0);
    assert!(zero.le(&BigNat::from_u64(0)));
    assert!(BigNat::from_u64(0).le(&zero));
    assert!(!one.le(&zero));
}

#[test]
fn table_agrees_with_the_curve() {
    for (d, tenths) in [(0u64, 22u32), (1, 22), (2, 24), (255, 21), (65535, 22), (4095 << 23, 24)] {
        let curve = GammaCurve::new(d, tenths);
        let table = GammaTable::new(d, tenths);
        let step = (d / 997).max(1);
        let mut n = 0u64;
        while n <= d {
            assert_eq!(table.encode(n), curve.encode(n), "n = {}, d = {}", n, d);
            n += step;
        }
        assert_eq!(table.encode(d), 255);
        assert_eq!(table.encode(u64::MAX), 255);
    }
    let table = GammaTable::new(65535, 22);
    for v in (0..=65535u64).step_by(7) {
        assert_eq!(table.encode(v), expected(v, 65535, 2.2), "v = {}", v);
    }
    assert!(matches!(GammaEncoder::new(10, 22, TABLE_FROM), GammaEncoder::Tabulated(_)));
    assert!(matches!(GammaEncoder::new(10, 22, TABLE_FROM - 1), GammaEncoder::Direct(_)));
    assert_eq!(GammaEncoder::new(2, 22, TABLE_FROM).encode(1), 186);
    assert_eq!(GammaEncoder::new(2, 22, 0).encode(1), 186);
}
