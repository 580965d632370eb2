//! Books.

use bot_polymarket_rust::book_state::{BookSide, BookState};
use bot_polymarket_rust::decimal::Decimal;

fn dec(text: &str) -> Decimal {
    Decimal::parse_exact(text).unwrap()
}

#[test]
fn replace_then_query() {
    let mut s = BookSide::new();
    s.replace_levels(&[(dec("0.4"), dec("100")), (dec("0.3"), dec("50"))]);
    assert_eq!(s.best_price(false), Some(dec("0.3")));
    assert_eq!(s.best_price(true), Some(dec("0.4")));
    assert_eq!(s.size_at(&dec("0.4")), dec("100"));
}

#[test]
fn delta_removes_at_zero() {
    let mut s = BookSide::new();
    s.replace_levels(&[(dec("0.4"), dec("100"))]);
    s.apply_delta(dec("0.4"), Decimal::zero());
    assert_eq!(s.best_price(false), None);
}

#[test]
fn delta_upserts() {
    let mut s = BookSide::new();
    s.apply_delta(dec("0.5"), dec("200"));
    assert_eq!(s.size_at(&dec("0.5")), dec("200"));
    s.apply_delta(dec("0.5"), dec("300"));
    assert_eq!(s.size_at(&dec("0.5")), dec("300"));
}

#[test]
fn book_state_best_bid_ask() {
    let mut b = BookState::new("a1", "m1");
    b.bids.replace_levels(&[(dec("0.40"), dec("10")), (dec("0.41"), dec("5"))]);
    b.asks.replace_levels(&[(dec("0.55"), dec("20")), (dec("0.56"), dec("8"))]);
    assert_eq!(b.best_bid(), Some((dec("0.41"), dec("5"))));
    assert_eq!(b.best_ask(), Some((dec("0.55"), dec("20"))));
}

#[test]
fn rejects_invalid_levels() {
    let mut s = BookSide::new();
    s.replace_levels(&[
        (dec("0.4"), dec("100")),
        (dec("0"), dec("50")),
        (dec("0.5"), dec("0")),
        (dec("-0.1"), dec("10")),
    ]);
    assert_eq!(s.levels().len(), 1);
    assert_eq!(s.size_at(&dec("0.4")), dec("100"));
}

#[test]
fn levels_are_keyed_by_value() {
    let mut s = BookSide::new();
    s.replace_levels(&[(dec("0.4"), dec("1")), (dec("0.40"), dec("2"))]);
    assert_eq!(s.levels().len(), 1);
    assert_eq!(s.size_at(&dec("0.400")), dec("2"));
    assert_eq!(s.best_price(false).unwrap().scale(), 1);
    s.apply_delta(dec("0.400"), dec("3"));
    assert_eq!(s.best_price(true).unwrap().scale(), 1);
    assert_eq!(s.size_at(&dec("0.4")), dec("3"));
    s.apply_delta(dec("0.4000"), dec("-1"));
    assert_eq!(s.levels().len(), 0);
}

#[test]
fn deltas_touch_one_level_only() {
    let mut s = BookSide::new();
    s.replace_levels(&[(dec("0.3"), dec("1")), (dec("0.5"), dec("3")), (dec("0.4"), dec("2"))]);
    s.apply_delta(dec("0.45"), dec("9"));
    s.apply_delta(dec("0.4"), dec("0"));
    s.apply_delta(dec("0.6"), dec("0"));
    let got: Vec<(Decimal, Decimal)> = s.levels().iter().copied().collect();
    assert_eq!(
        got,
        vec![(dec("0.3"), dec("1")), (dec("0.45"), dec("9")), (dec("0.5"), dec("3"))]
    );
    assert_eq!(s.size_at(&dec("0.4")), Decimal::zero());
    s.apply_delta(dec("0"), dec("5"));
    s.apply_delta(dec("-0.1"), dec("5"));
    let prices: Vec<Decimal> = s.levels().iter().map(|l| l.0).collect();
    assert!(prices.windows(2).all(|w| w[0] < w[1]));
}

#[test]
fn a_snapshot_forgets_what_was_there() {
    let mut s = BookSide::new();
    s.apply_delta(dec("0.5"), dec("200"));
    s.replace_levels(&[]);
    assert_eq!(s.best_price(true), None);
}

#[test]
fn a_copy_is_on_its_own() {
    let mut b = BookState::new("a1", "m1");
    b.asks.apply_delta(dec("0.5"), dec("1"));
    let c = b.clone();
    b.asks.apply_delta(dec("0.5"), dec("0"));
    assert_eq!(b.best_ask(), None);
    assert_eq!(c.best_ask(), Some((dec("0.5"), dec("1"))));
    assert_eq!(c.asset_id, "a1");
    assert_eq!(c.market_id, "m1");
    assert_eq!(c.last_update_ts_ms, 0);
}
