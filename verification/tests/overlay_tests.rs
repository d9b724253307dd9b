//! Tests of the overlay position parser and defaults.

use whispering::normalize::{q31_from_f32_bits, q31_from_i16, q31_from_u16, q31_to_i16};
use whispering::overlay::{parse_position, OverlayPosition};

#[test]
fn parse_position_accepts_the_three_settings() {
    assert_eq!(parse_position("Top").unwrap(), OverlayPosition::Top);
    assert_eq!(parse_position("Bottom").unwrap(), OverlayPosition::Bottom);
    assert_eq!(parse_position("None").unwrap(), OverlayPosition::Disabled);
}

#[test]
fn parse_position_rejects_anything_else() {
    assert!(parse_position("top").is_err());
    assert!(parse_position("").is_err());
    assert!(parse_position("Middle").is_err());
}

#[test]
fn overlay_defaults_to_bottom() {
    assert_eq!(OverlayPosition::default(), OverlayPosition::Bottom);
}

#[test]
fn q31_conversions_are_exact() {
    assert_eq!(q31_from_i16(1), 65536);
    assert_eq!(q31_from_i16(-32768), i32::MIN);
    assert_eq!(q31_from_i16(32767), 32767 * 65536);
    assert_eq!(q31_from_u16(32768), 0);
    assert_eq!(q31_from_u16(0), i32::MIN);
    assert_eq!(q31_from_f32_bits(0.5f32.to_bits()), 1 << 30);
    assert_eq!(q31_from_f32_bits((-0.5f32).to_bits()), -(1 << 30));
    assert_eq!(q31_from_f32_bits(1.0f32.to_bits()), i32::MAX);
    assert_eq!(q31_from_f32_bits((-1.0f32).to_bits()), i32::MIN);
    assert_eq!(q31_from_f32_bits(0.0f32.to_bits()), 0);
    assert_eq!(q31_from_f32_bits(f32::NAN.to_bits()), i32::MAX);
    // A tiny subnormal magnitude collapses to zero.
    assert_eq!(q31_from_f32_bits(1), 0);
    // Q1.31 back to 16-bit samples.
    assert_eq!(q31_to_i16(1 << 30), 16383);
    assert_eq!(q31_to_i16(i32::MIN), -32767);
    assert_eq!(q31_to_i16(i32::MAX), 32766);
    assert_eq!(q31_to_i16(0), 0);
}
