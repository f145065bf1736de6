use half::f16;
use intfloat::{Binary16, Binary32, Binary64, FloatExt, Format, FpCategory};
use num_traits::float::FloatCore;
use rand::random;

fn b16(v: f16) -> Binary16 {
    Binary16::from_bits(v.to_bits())
}

fn b32(v: f32) -> Binary32 {
    Binary32::from_bits(v.to_bits())
}

fn b64(v: f64) -> Binary64 {
    Binary64::from_bits(v.to_bits())
}

#[test]
fn test_f16() {
    assert!(!b16(f16::NAN).is_integer());
    assert!(!b16(f16::INFINITY).is_integer());
    assert!(!b16(f16::NEG_INFINITY).is_integer());
    assert!(b16(f16::ZERO).is_integer());
    assert!(b16(f16::ONE).is_integer());
    assert!(b16(f16::NEG_ONE).is_integer());

    for _ in 0..=50_000 {
        let v = f16::from_f32(2f32 * random::<f32>() - 1f32);
        assert_eq!(b16(v).is_integer(), FloatCore::round(v) == v);
    }
}

#[test]
fn test_f32() {
    assert!(!b32(f32::NAN).is_integer());
    assert!(!b32(f32::INFINITY).is_integer());
    assert!(!b32(f32::NEG_INFINITY).is_integer());
    assert!(b32(0f32).is_integer());
    assert!(b32(1f32).is_integer());
    assert!(b32(-1f32).is_integer());

    for _ in 0..=50_000 {
        let v = 2f32 * random::<f32>() - 1f32;
        assert_eq!(b32(v).is_integer(), v.round() == v);
    }
}

#[test]
fn test_f64() {
    assert!(!b64(f64::NAN).is_integer());
    assert!(!b64(f64::INFINITY).is_integer());
    assert!(!b64(f64::NEG_INFINITY).is_integer());
    assert!(b64(0f64).is_integer());
    assert!(b64(1f64).is_integer());
    assert!(b64(-1f64).is_integer());

    for _ in 0..=50_000 {
        let v = 2f64 * random::<f64>() - 1f64;
        assert_eq!(b64(v).is_integer(), v.round() == v);
    }
}

#[test]
fn classify_reports_the_category() {
    assert_eq!(b32(1f32).integer_classify(), Ok(()));
    assert_eq!(b64(3.14f64).integer_classify(), Err(FpCategory::Normal));
    assert_eq!(b64(f64::NAN).integer_classify(), Err(FpCategory::Nan));
    assert_eq!(b64(f64::INFINITY).integer_classify(), Err(FpCategory::Infinite));
    assert_eq!(b32(f32::NEG_INFINITY).integer_classify(), Err(FpCategory::Infinite));
    assert_eq!(b32(-0f32).integer_classify(), Ok(()));
    assert_eq!(b16(f16::from_bits(0x8000)).integer_classify(), Ok(()));
    assert_eq!(b16(f16::LN_2).integer_classify(), Err(FpCategory::Normal));
}

#[test]
fn subnormals_are_fractions() {
    assert_eq!(Binary32::from_bits(1).integer_classify(), Err(FpCategory::Subnormal));
    assert_eq!(Binary32::from_bits(0x007f_ffff).integer_classify(), Err(FpCategory::Subnormal));
    assert_eq!(Binary32::from_bits(0x8000_0001).integer_classify(), Err(FpCategory::Subnormal));
    assert_eq!(Binary64::from_bits(1).integer_classify(), Err(FpCategory::Subnormal));
    assert_eq!(Binary16::from_bits(0x03ff).integer_classify(), Err(FpCategory::Subnormal));
    assert!(!b64(f64::MIN_POSITIVE / 2.0).is_integer());
    assert!(!b32(f32::MIN_POSITIVE).is_integer());
}

#[test]
fn exponent_zero_needs_an_empty_mantissa() {
    assert!(b32(1.0).is_integer());
    assert!(!b32(1.5).is_integer());
    assert!(!b32(1.0000001).is_integer());
    assert!(!b32(-1.25).is_integer());
    assert!(!b64(1.5).is_integer());
    assert!(!b64(1.0 + f64::EPSILON).is_integer());
    assert!(!b16(f16::from_f32(1.5)).is_integer());
    assert!(!b32(f32::from_bits(0x3f80_0017)).is_integer());
}

#[test]
fn fraction_bits_decide_below_the_mantissa_width() {
    assert!(b32(2.0).is_integer());
    assert!(!b32(2.5).is_integer());
    assert!(b32(3.0).is_integer());
    assert!(!b32(3.75).is_integer());
    assert!(b32(1023.0).is_integer());
    assert!(!b32(1023.5).is_integer());
    assert!(b32(-4096.0).is_integer());
    assert!(!b32(-4096.0625).is_integer());
    assert!(b32(8388607.0).is_integer());
    assert!(!b32(4194303.5).is_integer());
    assert!(b64(4503599627370495.0).is_integer());
    assert!(!b64(2251799813685247.5).is_integer());
    assert!(b16(f16::from_f32(1023.0)).is_integer());
    assert!(!b16(f16::from_f32(511.5)).is_integer());
}

#[test]
fn large_exponents_are_integers() {
    assert!(b32(8388608.0).is_integer());
    assert!(b32(16777216.0).is_integer());
    assert!(b32(1e30).is_integer());
    assert!(b32(f32::MAX).is_integer());
    assert!(b32(f32::MIN).is_integer());
    assert!(b64(4503599627370496.0).is_integer());
    assert!(b64(1e300).is_integer());
    assert!(b64(f64::MAX).is_integer());
    assert!(b16(f16::MAX).is_integer());
    assert!(b16(f16::from_f32(2048.0)).is_integer());
}

#[test]
fn is_integer_agrees_with_rounding_on_random_patterns() {
    for _ in 0..200_000 {
        let v = f32::from_bits(random::<u32>());
        assert_eq!(b32(v).is_integer(), v.is_finite() && v.round() == v, "{v:?}");
        let w = f64::from_bits(random::<u64>());
        assert_eq!(b64(w).is_integer(), w.is_finite() && w.round() == w, "{w:?}");
    }
}

#[test]
fn is_integer_agrees_with_rounding_near_the_binary_point() {
    for _ in 0..200_000 {
        let v = (random::<f32>() - 0.5) * 40000000.0;
        assert_eq!(b32(v).is_integer(), v.round() == v, "{v:?}");
        let w = (random::<f64>() - 0.5) * 20000000000000000.0;
        assert_eq!(b64(w).is_integer(), w.round() == w, "{w:?}");
        let x = (random::<f64>() - 0.5) * 64.0;
        assert_eq!(b64(x).is_integer(), x.round() == x, "{x:?}");
    }
}

#[test]
fn every_half_precision_pattern_agrees_with_rounding() {
    for bits in 0..=u16::MAX {
        let v = f16::from_bits(bits);
        let wide = v.to_f32();
        let expected = wide.is_finite() && wide.round() == wide;
        assert_eq!(Binary16::from_bits(bits).is_integer(), expected, "{bits:#06x}");
        let class = Binary16::from_bits(bits).integer_classify();
        if expected {
            assert_eq!(class, Ok(()));
        } else {
            let category = match v.classify() {
                core::num::FpCategory::Nan => FpCategory::Nan,
                core::num::FpCategory::Infinite => FpCategory::Infinite,
                core::num::FpCategory::Zero => FpCategory::Zero,
                core::num::FpCategory::Subnormal => FpCategory::Subnormal,
                core::num::FpCategory::Normal => FpCategory::Normal,
            };
            assert_eq!(class, Err(category));
        }
    }
}

#[test]
fn classification_is_repeatable() {
    for _ in 0..10_000 {
        let bits = random::<u64>();
        let v = Binary64::from_bits(bits);
        let first = v.integer_classify();
        let second = v.integer_classify();
        assert_eq!(first, second);
        assert_eq!(v.to_bits(), bits);
        assert_eq!(v.is_integer(), first.is_ok());
    }
}

#[test]
fn fields_of_a_pattern() {
    let single = Format::binary32();
    assert_eq!(single, Format { exponent_bits: 8, mantissa_bits: 23 });
    let bits = (-118.625f32).to_bits() as u64;
    assert!(single.sign(bits));
    assert_eq!(single.exponent(bits), 133);
    assert_eq!(single.mantissa(bits), 0x6d_4000);
    assert!(!single.sign(1f32.to_bits() as u64));
    assert_eq!(single.exponent(1f32.to_bits() as u64), 127);
    assert_eq!(single.mantissa(1f32.to_bits() as u64), 0);

    let double = Format::binary64();
    assert_eq!(double, Format { exponent_bits: 11, mantissa_bits: 52 });
    assert_eq!(double.exponent(1f64.to_bits()), 1023);
    assert_eq!(double.mantissa(1.5f64.to_bits()), 1 << 51);
    assert!(double.sign((-0f64).to_bits()));

    let half = Format::binary16();
    assert_eq!(half, Format { exponent_bits: 5, mantissa_bits: 10 });
    assert_eq!(half.exponent(f16::ONE.to_bits() as u64), 15);
    assert_eq!(half.mantissa(f16::LN_2.to_bits() as u64), 0x18c);
    assert!(half.sign(f16::NEG_ONE.to_bits() as u64));
}

#[test]
fn categories_match_the_standard_ones() {
    let single = Format::binary32();
    assert_eq!(single.category(0), FpCategory::Zero);
    assert_eq!(single.category(0x8000_0000), FpCategory::Zero);
    assert_eq!(single.category(1), FpCategory::Subnormal);
    assert_eq!(single.category(0x0080_0000), FpCategory::Normal);
    assert_eq!(single.category(0x7f7f_ffff), FpCategory::Normal);
    assert_eq!(single.category(0x7f80_0000), FpCategory::Infinite);
    assert_eq!(single.category(0xff80_0000), FpCategory::Infinite);
    assert_eq!(single.category(0x7f80_0001), FpCategory::Nan);
    assert_eq!(single.category(0x7fc0_0000), FpCategory::Nan);
    for _ in 0..100_000 {
        let v = f64::from_bits(random::<u64>());
        let expected = match v.classify() {
            core::num::FpCategory::Nan => FpCategory::Nan,
            core::num::FpCategory::Infinite => FpCategory::Infinite,
            core::num::FpCategory::Zero => FpCategory::Zero,
            core::num::FpCategory::Subnormal => FpCategory::Subnormal,
            core::num::FpCategory::Normal => FpCategory::Normal,
        };
        assert_eq!(Format::binary64().category(v.to_bits()), expected);
    }
}

#[test]
fn other_layouts_classify_too() {
    let brain = Format { exponent_bits: 8, mantissa_bits: 7 };
    assert_eq!(brain.integer_classify(0x3f80), Ok(()));
    assert_eq!(brain.integer_classify(0x3fc0), Err(FpCategory::Normal));
    assert_eq!(brain.integer_classify(0x4040), Ok(()));
    assert_eq!(brain.integer_classify(0x7f80), Err(FpCategory::Infinite));
    assert_eq!(brain.integer_classify(0x7fc0), Err(FpCategory::Nan));
    assert_eq!(brain.integer_classify(0x0001), Err(FpCategory::Subnormal));
    assert_eq!(brain.integer_classify(0x8000), Ok(()));
}

#[test]
fn new_formats_are_checked() {
    assert_eq!(Format::new(8, 23), Some(Format::binary32()));
    assert_eq!(Format::new(11, 52), Some(Format::binary64()));
    assert_eq!(Format::new(5, 10), Some(Format::binary16()));
    assert_eq!(Format::new(2, 61), Some(Format { exponent_bits: 2, mantissa_bits: 61 }));
    assert_eq!(Format::new(63, 0), Some(Format { exponent_bits: 63, mantissa_bits: 0 }));
    assert_eq!(Format::new(1, 10), None);
    assert_eq!(Format::new(0, 0), None);
    assert_eq!(Format::new(11, 53), None);
    assert_eq!(Format::new(64, 0), None);
    assert_eq!(Format::new(2, 62), None);
    assert_eq!(Format::new(u32::MAX, 1), None);
    assert_eq!(Format::new(2, u32::MAX), None);
}

#[test]
fn extreme_layouts_classify_too() {
    let wide = Format::new(2, 61).unwrap();
    let one: u64 = 1 << 61;
    assert_eq!(wide.integer_classify(one), Ok(()));
    assert_eq!(wide.integer_classify(one | 1), Err(FpCategory::Normal));
    assert_eq!(wide.integer_classify(one | (1 << 60)), Err(FpCategory::Normal));
    assert_eq!(wide.integer_classify(2 << 61), Ok(()));
    assert_eq!(wide.integer_classify((2 << 61) | (1 << 60)), Ok(()));
    assert_eq!(wide.integer_classify((2 << 61) | (1 << 59)), Err(FpCategory::Normal));
    assert_eq!(wide.integer_classify(3 << 61), Err(FpCategory::Infinite));
    assert_eq!(wide.integer_classify((3 << 61) | 1), Err(FpCategory::Nan));
    assert_eq!(wide.integer_classify(1), Err(FpCategory::Subnormal));
    assert_eq!(wide.integer_classify(1 << 63), Ok(()));

    let tall = Format::new(62, 1).unwrap();
    let bias: u64 = (1 << 61) - 1;
    assert_eq!(tall.integer_classify(bias << 1), Ok(()));
    assert_eq!(tall.integer_classify((bias << 1) | 1), Err(FpCategory::Normal));
    assert_eq!(tall.integer_classify(((bias + 1) << 1) | 1), Ok(()));
    assert_eq!(tall.integer_classify((bias - 1) << 1), Err(FpCategory::Normal));
    assert_eq!(tall.integer_classify(((bias + 5000) << 1) | 1), Ok(()));
    assert_eq!(tall.integer_classify(1), Err(FpCategory::Subnormal));

    let bare = Format::new(63, 0).unwrap();
    let middle: u64 = (1 << 62) - 1;
    assert_eq!(bare.integer_classify(middle), Ok(()));
    assert_eq!(bare.integer_classify(middle - 1), Err(FpCategory::Normal));
    assert_eq!(bare.integer_classify(middle + 7), Ok(()));
    assert_eq!(bare.integer_classify(0), Ok(()));
    assert_eq!(bare.integer_classify((1 << 63) - 1), Err(FpCategory::Infinite));
}
