//! Bits of doubles against doubles.

use bot_polymarket_rust::double::Double;
use bot_polymarket_rust::live_runner::THREE_BASIS_POINTS;
use bot_polymarket_rust::strategies::lag_arb::FIVE_BASIS_POINTS;
use bot_polymarket_rust::trinity_runner::FIVE_PERCENT;

fn samples() -> Vec<f64> {
    vec![
        0.0,
        -0.0,
        1.0,
        -1.0,
        0.0001,
        0.0003,
        -0.0003,
        0.05,
        63000.0,
        f64::MIN_POSITIVE,
        -f64::MIN_POSITIVE,
        5e-324,
        f64::MAX,
        f64::MIN,
        f64::INFINITY,
        f64::NEG_INFINITY,
        f64::NAN,
        -f64::NAN,
    ]
}

#[test]
fn doubles_compare_as_their_values_do() {
    for a in samples() {
        let x = Double { bits: a.to_bits() };
        assert_eq!(x.is_nan(), a.is_nan());
        assert_eq!(x.abs().bits, a.abs().to_bits());
        assert_eq!(x.is_positive(), a > 0.0);
        for b in samples() {
            let y = Double { bits: b.to_bits() };
            assert_eq!(x.less_than(y), a < b);
        }
    }
}

#[test]
fn constants_are_the_nearest_doubles() {
    assert_eq!(FIVE_BASIS_POINTS, 0.0005f64.to_bits());
    assert_eq!(THREE_BASIS_POINTS, 0.0003f64.to_bits());
    assert_eq!(FIVE_PERCENT, 0.05f64.to_bits());
    assert_eq!(Double::zero().bits, 0.0f64.to_bits());
}
