//! Opportunities within one market.

use bot_polymarket_rust::bilateral::{
    detect_bilateral, detect_bilateral_at, is_bilateral_defined, opportunity_with,
    worthwhile_shares, BilateralArbStrategy, BilateralConfig, Figures,
};
use bot_polymarket_rust::book_state::BookState;
use bot_polymarket_rust::decimal::{Checked, Decimal};
use bot_polymarket_rust::fees::effective_fee_per_share;
use bot_polymarket_rust::string_map::StringMap;
use bot_polymarket_rust::timestamp::Timestamp;
use bot_polymarket_rust::types::{Market, Side};

fn dec(text: &str) -> Decimal {
    Decimal::parse_exact(text).unwrap()
}

fn mk_market() -> Market {
    Market {
        condition_id: "0xMKT".to_string(),
        slug: "btc-up-or-down".to_string(),
        question: "BTC up or down?".to_string(),
        yes_token_id: "TOKEN_A".to_string(),
        no_token_id: "TOKEN_B".to_string(),
        end_date: None,
        neg_risk: false,
    }
}

fn book(id: &str, mid: &str, ask_price: Decimal, ask_size: Decimal) -> BookState {
    let mut b = BookState::new(id, mid);
    b.asks.replace_levels(&[(ask_price, ask_size)]);
    b
}

fn config(max_shares: &str) -> BilateralConfig {
    BilateralConfig {
        fee_rate_bps: 180,
        min_edge_per_unit: dec("0.002"),
        slippage_buffer_bps: 20,
        max_shares: dec(max_shares),
    }
}

#[test]
fn no_edge_when_sum_exceeds_one() {
    let m = mk_market();
    let ba = book("TOKEN_A", "0xMKT", dec("0.55"), dec("100"));
    let bb = book("TOKEN_B", "0xMKT", dec("0.50"), dec("100"));
    assert!(detect_bilateral(&m, &ba, &bb, &config("1000")).is_none());
}

#[test]
fn detects_clear_edge() {
    let m = mk_market();
    let ba = book("TOKEN_A", "0xMKT", dec("0.40"), dec("100"));
    let bb = book("TOKEN_B", "0xMKT", dec("0.50"), dec("50"));
    let opp = detect_bilateral(&m, &ba, &bb, &config("1000")).expect("expected opp");
    assert_eq!(opp.legs.len(), 2);
    assert_eq!(opp.legs[0].size_shares, dec("50"));
    assert_eq!(opp.legs[1].size_shares, dec("50"));
    assert!(opp.edge_per_unit > dec("0.09"));
    assert!(opp.expected_pnl_usdc > dec("4.5"));
    assert_eq!(opp.edge_per_unit, dec("0.094022"));
    assert_eq!(opp.expected_pnl_usdc, dec("4.7011"));
    assert_eq!(opp.notional_usdc, dec("45"));
    assert_eq!(opp.sum_ask, dec("0.90"));
    assert_eq!(opp.strategy, "bilateral");
    assert_eq!(opp.legs[0].asset_id, "TOKEN_A");
    assert_eq!(opp.legs[1].asset_id, "TOKEN_B");
    assert_eq!(opp.legs[1].price, dec("0.50"));
    assert_eq!(opp.legs[0].side, Side::Buy);
}

#[test]
fn no_opp_when_size_zero_after_cap() {
    let m = mk_market();
    let ba = book("TOKEN_A", "0xMKT", dec("0.40"), dec("0"));
    let bb = book("TOKEN_B", "0xMKT", dec("0.50"), dec("50"));
    assert!(detect_bilateral(&m, &ba, &bb, &config("1000")).is_none());
}

#[test]
fn shares_capped_by_max_shares() {
    let m = mk_market();
    let ba = book("TOKEN_A", "0xMKT", dec("0.40"), dec("1000"));
    let bb = book("TOKEN_B", "0xMKT", dec("0.50"), dec("1000"));
    let opp = detect_bilateral(&m, &ba, &bb, &config("40")).expect("expected opp");
    assert_eq!(opp.legs[0].size_shares, dec("40"));
}

#[test]
fn strategy_indexing_and_evaluation() {
    let mut s = BilateralArbStrategy::new(config("1000"));
    s.register_market(mk_market());
    assert_eq!(s.market_id_for_asset("TOKEN_A"), Some("0xMKT"));
    assert_eq!(s.market_id_for_asset("TOKEN_B"), Some("0xMKT"));
    assert_eq!(s.market_id_for_asset("OTHER"), None);
    let mut books = StringMap::new();
    books.insert("TOKEN_A".to_string(), book("TOKEN_A", "0xMKT", dec("0.40"), dec("100")));
    books.insert("TOKEN_B".to_string(), book("TOKEN_B", "0xMKT", dec("0.50"), dec("50")));
    let opp = s.evaluate_market("0xMKT", &books).expect("opp");
    assert_eq!(opp.market_id, "0xMKT");
}

#[test]
fn unregistering_undoes_registering() {
    let mut s = BilateralArbStrategy::new(config("1000"));
    s.register_market(mk_market());
    assert_eq!(s.tracked_assets().len(), 2);
    s.unregister_market("0xMKT");
    assert_eq!(s.market_id_for_asset("TOKEN_A"), None);
    assert_eq!(s.tracked_assets().len(), 0);
    let books = StringMap::new();
    assert!(s.evaluate_market("0xMKT", &books).is_none());
    s.unregister_market("0xMKT");
}

#[test]
fn a_market_without_both_books_offers_nothing() {
    let mut s = BilateralArbStrategy::new(config("1000"));
    s.register_market(mk_market());
    let mut books = StringMap::new();
    books.insert("TOKEN_A".to_string(), book("TOKEN_A", "0xMKT", dec("0.40"), dec("100")));
    assert!(s.evaluate_market("0xMKT", &books).is_none());
    assert!(s.is_market_defined("0xMKT", &books));
}

#[test]
fn prices_at_either_end_offer_nothing() {
    let m = mk_market();
    let now = Timestamp::epoch();
    for (a, b) in [("1", "0.1"), ("0.1", "1"), ("1.5", "0.1")] {
        let ba = book("TOKEN_A", "0xMKT", dec(a), dec("10"));
        let bb = book("TOKEN_B", "0xMKT", dec(b), dec("10"));
        assert!(detect_bilateral_at(&m, &ba, &bb, &config("1000"), now).is_none());
    }
}

#[test]
fn the_edge_must_reach_the_minimum() {
    let m = mk_market();
    let now = Timestamp::from_unix(7, 0).unwrap();
    let ba = book("TOKEN_A", "0xMKT", dec("0.40"), dec("100"));
    let bb = book("TOKEN_B", "0xMKT", dec("0.50"), dec("50"));
    let mut cfg = config("1000");
    cfg.min_edge_per_unit = dec("0.094022");
    let opp = detect_bilateral_at(&m, &ba, &bb, &cfg, now).unwrap();
    assert_eq!(opp.detected_at, now);
    cfg.min_edge_per_unit = dec("0.0940220001");
    assert!(detect_bilateral_at(&m, &ba, &bb, &cfg, now).is_none());
}

#[test]
fn an_opportunity_costs_less_than_it_pays() {
    let m = mk_market();
    let cfg = config("1000");
    let now = Timestamp::epoch();
    for a in 1..100i64 {
        for b in 1..100i64 {
            let (pa, pb) = (Decimal::new(a, 2), Decimal::new(b, 2));
            let ba = book("TOKEN_A", "0xMKT", pa, dec("10"));
            let bb = book("TOKEN_B", "0xMKT", pb, dec("10"));
            if let Some(o) = detect_bilateral_at(&m, &ba, &bb, &cfg, now) {
                let fees = effective_fee_per_share(pa, 180)
                    .checked_add(effective_fee_per_share(pb, 180))
                    .unwrap();
                let cost = o.sum_ask.checked_add(fees).unwrap();
                assert!(cost.checked_add(cfg.min_edge_per_unit).unwrap() <= Decimal::one());
                let rest = Decimal::one().checked_sub(cost).unwrap();
                assert_eq!(rest.checked_sub(dec("0.002")).unwrap(), o.edge_per_unit);
            } else {
                assert!(a + b >= 99);
            }
        }
    }
}

#[test]
fn shares_are_the_smallest_of_three() {
    let cfg = config("40");
    assert_eq!(worthwhile_shares(dec("0.01"), dec("50"), dec("60"), &cfg), Some(dec("40")));
    assert_eq!(worthwhile_shares(dec("0.01"), dec("30"), dec("60"), &cfg), Some(dec("30")));
    assert_eq!(worthwhile_shares(dec("0.01"), dec("50"), dec("20"), &cfg), Some(dec("20")));
    assert_eq!(worthwhile_shares(dec("0.0019"), dec("50"), dec("20"), &cfg), None);
    assert_eq!(worthwhile_shares(dec("0.01"), dec("0"), dec("20"), &cfg), None);
}

#[test]
fn figures_are_laid_out_in_two_legs() {
    let f = Figures {
        price_a: dec("0.1"),
        price_b: dec("0.2"),
        sum_ask: dec("0.3"),
        edge: dec("0.7"),
        shares: dec("5"),
        notional: dec("1.5"),
        expected_pnl: dec("3.5"),
    };
    let a = BookState::new("A", "m");
    let b = BookState::new("B", "m");
    let o = opportunity_with(&mk_market(), &a, &b, &f, Timestamp::epoch());
    assert_eq!(o.legs[0].asset_id, "A");
    assert_eq!(o.legs[0].price, dec("0.1"));
    assert_eq!(o.legs[1].asset_id, "B");
    assert_eq!(o.legs[1].price, dec("0.2"));
    assert_eq!(o.notional_usdc, dec("1.5"));
    assert_eq!(o.expected_pnl_usdc, dec("3.5"));
    assert_eq!(o.market_id, "0xMKT");
}

#[test]
fn figures_that_overflow_are_told_apart() {
    // Large sizes times a price below one stay in range, so nothing overflows.
    let most = "79228162514264337593543950335";
    let ba = book("TOKEN_A", "0xMKT", dec("0.40"), dec(most));
    let bb = book("TOKEN_B", "0xMKT", dec("0.50"), dec(most));
    let cfg = config(most);
    assert!(is_bilateral_defined(&ba, &bb, &cfg));
    let mut s = BilateralArbStrategy::new(cfg);
    s.register_market(mk_market());
    let mut books = StringMap::new();
    books.insert("TOKEN_A".to_string(), ba);
    books.insert("TOKEN_B".to_string(), bb);
    match s.try_evaluate_market("0xMKT", &books) {
        Checked::Value(Some(o)) => assert_eq!(o.legs[0].size_shares, dec(most)),
        _ => panic!("an opportunity was expected"),
    }
    match s.try_evaluate_market("other", &books) {
        Checked::Value(None) => {}
        _ => panic!("nothing was expected"),
    }
}

#[test]
fn swapped_books_agree_however_the_sizes_are_written() {
    let m = mk_market();
    let now = Timestamp::epoch();
    for (size_a, size_b) in [("50", "50.0"), ("7.3", "7.30000000"), ("12.345678", "12.3456780")] {
        for (p, q) in [("0.40", "0.50"), ("0.12345678", "0.7"), ("0.33333333", "0.44444444")] {
            let ba = book("TOKEN_A", "0xMKT", dec(p), dec(size_a));
            let bb = book("TOKEN_B", "0xMKT", dec(q), dec(size_b));
            for cap in ["1000", "50.00", "7.3"] {
                for min_edge in ["0.002", "0", "-1"] {
                    let cfg = BilateralConfig { min_edge_per_unit: dec(min_edge), ..config(cap) };
                    let x = detect_bilateral_at(&m, &ba, &bb, &cfg, now).unwrap();
                    let y = detect_bilateral_at(&m, &bb, &ba, &cfg, now).unwrap();
                    assert_eq!(x.edge_per_unit, y.edge_per_unit);
                    assert_eq!(x.notional_usdc, y.notional_usdc);
                    assert_eq!(x.expected_pnl_usdc, y.expected_pnl_usdc);
                    assert_eq!(x.sum_ask, y.sum_ask);
                    for i in 0..2 {
                        assert_eq!(x.legs[i].asset_id, y.legs[1 - i].asset_id);
                        assert_eq!(x.legs[i].price, y.legs[1 - i].price);
                        assert_eq!(x.legs[i].size_shares, y.legs[1 - i].size_shares);
                    }
                }
            }
        }
    }
}

#[test]
fn huge_fees_are_rounded_in_the_order_of_the_books() {
    let m = mk_market();
    let now = Timestamp::epoch();
    let cfg = BilateralConfig {
        fee_rate_bps: 524_623,
        min_edge_per_unit: dec("-1000"),
        slippage_buffer_bps: 0,
        max_shares: dec("1"),
    };
    let ba = book("TOKEN_A", "0xMKT", dec("0.91407397"), dec("1"));
    let bb = book("TOKEN_B", "0xMKT", dec("0.53990965"), dec("1"));
    let x = detect_bilateral_at(&m, &ba, &bb, &cfg, now).unwrap();
    let y = detect_bilateral_at(&m, &bb, &ba, &cfg, now).unwrap();
    assert_eq!(x.edge_per_unit, dec("-11.256565903754326928410634555"));
    assert_eq!(y.edge_per_unit, dec("-11.256565903754326928410634554"));
}

#[test]
fn swapped_books_give_the_legs_in_reverse() {
    let m = mk_market();
    for (p, q) in [("0.40", "0.50"), ("0.12345678", "0.7"), ("0.9", "0.4")] {
        let ba = book("TOKEN_A", "0xMKT", dec(p), dec("100"));
        let bb = book("TOKEN_B", "0xMKT", dec(q), dec("33.3"));
        let now = Timestamp::epoch();
        let cfg = config("1000");
        let x = detect_bilateral_at(&m, &ba, &bb, &cfg, now);
        let y = detect_bilateral_at(&m, &bb, &ba, &cfg, now);
        match (x, y) {
            (Some(x), Some(y)) => {
                assert_eq!(x.edge_per_unit, y.edge_per_unit);
                assert_eq!(x.notional_usdc, y.notional_usdc);
                assert_eq!(x.expected_pnl_usdc, y.expected_pnl_usdc);
                assert_eq!(x.sum_ask, y.sum_ask);
                assert_eq!(x.market_id, y.market_id);
                for i in 0..2 {
                    assert_eq!(x.legs[i].asset_id, y.legs[1 - i].asset_id);
                    assert_eq!(x.legs[i].price, y.legs[1 - i].price);
                    assert_eq!(x.legs[i].size_shares, y.legs[1 - i].size_shares);
                }
            }
            (None, None) => assert_eq!(p, "0.9"),
            _ => panic!("one order offers more than the other"),
        }
    }
}
