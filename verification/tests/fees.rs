//! Fees.

use bot_polymarket_rust::decimal::Decimal;
use bot_polymarket_rust::fees::{effective_fee_per_share, fee_rate_for_price};

fn dec(text: &str) -> Decimal {
    Decimal::parse_exact(text).unwrap()
}

#[test]
fn fee_rate_zero_at_extremes() {
    assert_eq!(fee_rate_for_price(Decimal::zero(), 180), Decimal::zero());
    assert_eq!(fee_rate_for_price(Decimal::one(), 180), Decimal::zero());
    assert_eq!(fee_rate_for_price(dec("-0.1"), 180), Decimal::zero());
    assert_eq!(fee_rate_for_price(dec("1.5"), 180), Decimal::zero());
}

#[test]
fn fee_rate_max_at_half() {
    let r = fee_rate_for_price(dec("0.5"), 180);
    assert_eq!(r, dec("0.00450"));
}

#[test]
fn fee_per_share_at_05() {
    let f = effective_fee_per_share(dec("0.5"), 180);
    assert_eq!(f, dec("0.002250"));
}

#[test]
fn fee_per_share_symmetry() {
    let a = fee_rate_for_price(dec("0.3"), 180);
    let b = fee_rate_for_price(dec("0.7"), 180);
    assert_eq!(a, b);
}

#[test]
fn rates_are_symmetric_and_greatest_at_half() {
    let half = fee_rate_for_price(dec("0.5"), 180);
    for cents in 1..100i64 {
        let p = Decimal::new(cents, 2);
        let q = Decimal::new(100 - cents, 2);
        assert_eq!(fee_rate_for_price(p, 180), fee_rate_for_price(q, 180));
        assert!(fee_rate_for_price(p, 180) <= half);
        let exact = Decimal::new(180 * cents * (100 - cents), 8);
        assert_eq!(fee_rate_for_price(p, 180), exact);
        assert_eq!(effective_fee_per_share(p, 180), Decimal::new(180 * cents * cents * (100 - cents), 10));
    }
}

#[test]
fn fees_at_four_tenths() {
    assert_eq!(effective_fee_per_share(dec("0.4"), 180), dec("0.001728"));
    assert_eq!(effective_fee_per_share(dec("0.4"), 0), Decimal::zero());
    assert_eq!(effective_fee_per_share(Decimal::one(), 180), Decimal::zero());
    assert_eq!(effective_fee_per_share(dec("-1"), u32::MAX), Decimal::zero());
    assert!(fee_rate_for_price(dec("0.5"), u32::MAX) > dec("107374"));
}

#[test]
fn long_prices_have_exact_fees() {
    let (p, q) = (dec("0.123456789012"), dec("0.876543210988"));
    let rate = fee_rate_for_price(p, 180);
    assert_eq!(rate, fee_rate_for_price(q, 180));
    // 0.018 * 0.123456789012 * 0.876543210988.
    assert_eq!(rate, dec("0.001947873784659237289149408"));
    let (p, q) = (dec("0.12345678"), dec("0.87654322"));
    let (f, g) = (effective_fee_per_share(p, 180), effective_fee_per_share(q, 180));
    assert_eq!(f.checked_add(g), Some(fee_rate_for_price(p, 180)));
    assert_eq!(p.checked_mul(fee_rate_for_price(p, 180)), Some(f));
}
