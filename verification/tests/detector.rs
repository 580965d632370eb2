//! Books go in and out of a state with an opportunity.

use bot_polymarket_rust::bilateral::{BilateralArbStrategy, BilateralConfig};
use bot_polymarket_rust::book_state::BookState;
use bot_polymarket_rust::decimal::Decimal;
use bot_polymarket_rust::string_map::StringMap;
use bot_polymarket_rust::timestamp::Timestamp;
use bot_polymarket_rust::types::Market;

fn dec(text: &str) -> Decimal {
    Decimal::parse_exact(text).unwrap()
}

fn mk_market(cid: &str, a: &str, b: &str) -> Market {
    Market {
        condition_id: cid.to_string(),
        slug: "btc-up-or-down-5m".to_string(),
        question: "BTC up or down".to_string(),
        yes_token_id: a.to_string(),
        no_token_id: b.to_string(),
        end_date: Some(Timestamp::now()),
        neg_risk: false,
    }
}

#[test]
fn detector_finds_opp_after_book_update() {
    let mut strat = BilateralArbStrategy::new(BilateralConfig {
        fee_rate_bps: 180,
        min_edge_per_unit: dec("0.002"),
        slippage_buffer_bps: 20,
        max_shares: dec("1000"),
    });
    strat.register_market(mk_market("0xMKT", "A", "B"));

    let mut books = StringMap::new();
    let mut ba = BookState::new("A", "0xMKT");
    let mut bb = BookState::new("B", "0xMKT");

    books.insert("A".to_string(), ba.clone());
    books.insert("B".to_string(), bb.clone());
    assert!(strat.evaluate_market("0xMKT", &books).is_none());

    ba.asks.replace_levels(&[(dec("0.55"), dec("100"))]);
    bb.asks.replace_levels(&[(dec("0.50"), dec("100"))]);
    books.insert("A".to_string(), ba.clone());
    books.insert("B".to_string(), bb.clone());
    assert!(strat.evaluate_market("0xMKT", &books).is_none());

    ba.asks.apply_delta(dec("0.55"), Decimal::zero());
    ba.asks.apply_delta(dec("0.40"), dec("50"));
    bb.asks.apply_delta(dec("0.50"), Decimal::zero());
    bb.asks.apply_delta(dec("0.45"), dec("80"));
    books.insert("A".to_string(), ba);
    books.insert("B".to_string(), bb);
    let opp = strat
        .evaluate_market("0xMKT", &books)
        .expect("expected arb opp after asks dropped");
    assert!(opp.edge_per_unit > dec("0.10"));
    assert_eq!(opp.legs.len(), 2);
    assert_eq!(opp.legs[0].size_shares, dec("50"));
}

#[test]
fn opportunities_come_and_go_with_the_books() {
    let mut strat = BilateralArbStrategy::new(BilateralConfig {
        fee_rate_bps: 180,
        min_edge_per_unit: dec("0.002"),
        slippage_buffer_bps: 20,
        max_shares: dec("100"),
    });
    strat.register_market(mk_market("0xMKT", "A", "B"));
    let mut books = StringMap::new();
    let mut total = 0;
    let mut pnl = Decimal::zero();
    for i in 0..20 {
        let mut ba = BookState::new("A", "0xMKT");
        let mut bb = BookState::new("B", "0xMKT");
        if i % 2 == 0 {
            ba.asks.replace_levels(&[(dec("0.40"), dec("50"))]);
            bb.asks.replace_levels(&[(dec("0.50"), dec("50"))]);
        } else {
            ba.asks.replace_levels(&[(dec("0.55"), dec("100"))]);
            bb.asks.replace_levels(&[(dec("0.50"), dec("100"))]);
        }
        books.insert("A".to_string(), ba);
        books.insert("B".to_string(), bb);
        if let Some(opp) = strat.evaluate_market("0xMKT", &books) {
            pnl = pnl.checked_add(opp.expected_pnl_usdc).unwrap();
            total += 1;
        }
    }
    assert_eq!(total, 10);
    assert!(pnl > dec("40") && pnl < dec("55"));
}
