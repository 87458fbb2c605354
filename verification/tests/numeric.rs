//! The fixed-point building blocks: square root, normalization, and the
//! reading of single-precision bit patterns.

use replisim::floatbits::{decode_component, finite_bits};
use replisim::numeric::isqrt;
use replisim::vector::{normalize_or_zero, Vec2Milli, DIR_LIMIT_MILLI};

#[test]
fn isqrt_exact_values() {
    assert_eq!(isqrt(0), 0);
    assert_eq!(isqrt(1), 1);
    assert_eq!(isqrt(2), 1);
    assert_eq!(isqrt(3), 1);
    assert_eq!(isqrt(4), 2);
    assert_eq!(isqrt(999_999), 999);
    assert_eq!(isqrt(1_000_000), 1000);
    assert_eq!(isqrt(0xFFFF_FFFF_FFFF), 16_777_215);
}

#[test]
fn finite_bits_classifies_patterns() {
    assert!(finite_bits(0.0f32.to_bits()));
    assert!(finite_bits((-0.0f32).to_bits()));
    assert!(finite_bits(1.0f32.to_bits()));
    assert!(finite_bits(f32::MAX.to_bits()));
    assert!(finite_bits(f32::MIN_POSITIVE.to_bits()));
    assert!(!finite_bits(f32::NAN.to_bits()));
    assert!(!finite_bits(f32::INFINITY.to_bits()));
    assert!(!finite_bits(f32::NEG_INFINITY.to_bits()));
}

#[test]
fn decode_exact_values() {
    assert_eq!(decode_component(0.0f32.to_bits()), 0);
    assert_eq!(decode_component((-0.0f32).to_bits()), 0);
    assert_eq!(decode_component(1.0f32.to_bits()), 1000);
    assert_eq!(decode_component((-1.0f32).to_bits()), -1000);
    assert_eq!(decode_component(0.5f32.to_bits()), 500);
    assert_eq!(decode_component(0.25f32.to_bits()), 250);
    assert_eq!(decode_component(0.1f32.to_bits()), 100);
    assert_eq!(decode_component(2.5f32.to_bits()), 2500);
    assert_eq!(decode_component(1000.0f32.to_bits()), 1_000_000);
    // a subnormal is far below one milli
    assert_eq!(decode_component(1.0e-40f32.to_bits()), 0);
}

#[test]
fn decode_clamps_huge_magnitudes() {
    assert_eq!(decode_component(1.0e30f32.to_bits()), DIR_LIMIT_MILLI);
    assert_eq!(decode_component((-1.0e30f32).to_bits()), -DIR_LIMIT_MILLI);
    assert_eq!(decode_component(f32::MAX.to_bits()), DIR_LIMIT_MILLI);
    assert_eq!(decode_component(16384.0f32.to_bits()), DIR_LIMIT_MILLI);
}

#[test]
fn normalize_keeps_zero() {
    let z = normalize_or_zero(Vec2Milli { x: 0, y: 0 });
    assert_eq!((z.x, z.y), (0, 0));
}

#[test]
fn normalize_exact_values() {
    let u = normalize_or_zero(Vec2Milli { x: 1000, y: 0 });
    assert_eq!((u.x, u.y), (1000, 0));
    let u = normalize_or_zero(Vec2Milli { x: 0, y: -1000 });
    assert_eq!((u.x, u.y), (0, -1000));
    let u = normalize_or_zero(Vec2Milli { x: 3, y: 4 });
    assert_eq!((u.x, u.y), (600, 800));
    let u = normalize_or_zero(Vec2Milli { x: -600, y: 800 });
    assert_eq!((u.x, u.y), (-600, 800));
    let u = normalize_or_zero(Vec2Milli { x: DIR_LIMIT_MILLI, y: 0 });
    assert_eq!((u.x, u.y), (1000, 0));
}
