//! Numbers by their bits, held against the machine's own.

use switchyard::binary::{Binary32, Binary64};

/// Numbers of every kind, and some around each.
fn samples() -> Vec<f64> {
    let mut numbers = vec![
        0.0,
        -0.0,
        1.0,
        -1.0,
        0.5,
        0.7,
        1.5,
        0.1,
        -0.1,
        f64::MIN_POSITIVE,
        5e-324,
        -5e-324,
        1e-310,
        f64::MAX,
        f64::MIN,
        f64::INFINITY,
        f64::NEG_INFINITY,
        f64::NAN,
        -f64::NAN,
        f64::EPSILON,
    ];
    for bits in [0x3fef_ffff_ffff_ffffu64, 0x3ff0_0000_0000_0001, 0x7ff0_0000_0000_0001] {
        numbers.push(f64::from_bits(bits));
    }
    numbers
}

fn b64(number: f64) -> Binary64 {
    Binary64 {
        bits: number.to_bits(),
    }
}

#[test]
fn comparisons_are_the_machines() {
    for a in samples() {
        for b in samples() {
            assert_eq!(b64(a).at_least(b64(b)), a >= b, "{a:?} >= {b:?}");
        }
        assert_eq!(b64(a).is_nan(), a.is_nan());
        assert_eq!(b64(a).is_positive(), a > 0.0);
        assert_eq!(b64(a).is_probability(), (0.0..=1.0).contains(&a));
        assert_eq!(b64(a).abs().bits, a.abs().to_bits());
    }
}

#[test]
fn narrow_comparisons_are_the_machines() {
    let numbers: Vec<f32> = samples().iter().map(|number| *number as f32).collect();
    for a in &numbers {
        for b in &numbers {
            let left = Binary32 { bits: a.to_bits() };
            let right = Binary32 { bits: b.to_bits() };
            assert_eq!(left.at_least(right), a >= b, "{a:?} >= {b:?}");
        }
    }
}

#[test]
fn widening_is_the_machines() {
    let mut patterns: Vec<u32> = samples()
        .iter()
        .map(|number| (*number as f32).to_bits())
        .collect();
    for exponent in 0..=255u32 {
        for fraction in [0, 1, 2, 3, 0x40_0000, 0x7f_ffff, 0x12_3456] {
            patterns.push(exponent << 23 | fraction);
            patterns.push(0x8000_0000 | exponent << 23 | fraction);
        }
    }
    for bits in patterns {
        let number = f32::from_bits(bits);
        let wide = Binary32 { bits }.widen();
        assert_eq!(wide.is_nan(), number.is_nan());
        if !number.is_nan() {
            assert_eq!(wide.bits, f64::from(number).to_bits(), "{number:?}");
        }
    }
}
