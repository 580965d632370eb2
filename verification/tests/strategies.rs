//! Strategies A, B and C.

use bot_polymarket_rust::book_state::BookState;
use bot_polymarket_rust::cex_feed::CexState;
use bot_polymarket_rust::decimal::{Checked, Decimal};
use bot_polymarket_rust::double::Double;
use bot_polymarket_rust::strategies::bilateral_pure::{
    self, judge_edge, BilateralPureConfig, BilateralPureStrategy,
};
use bot_polymarket_rust::strategies::hybrid::{
    self, conclude, millis_to_close, HybridConfig, HybridStep, HybridStrategy, ModelReading,
};
use bot_polymarket_rust::strategies::lag_arb::{
    self, judge_move, target_size, CexSignal, DedupState, LagArbConfig, LagArbStrategy, Momentum,
};
use bot_polymarket_rust::strategies::{Decision, DecisionKind};
use bot_polymarket_rust::string_map::StringMap;
use bot_polymarket_rust::timestamp::Timestamp;
use bot_polymarket_rust::types::Market;

fn dec(text: &str) -> Decimal {
    Decimal::parse_exact(text).unwrap()
}

fn double(x: f64) -> Double {
    Double { bits: x.to_bits() }
}

fn base() -> Timestamp {
    Timestamp::parse_rfc3339("2026-05-12T00:00:00Z").unwrap()
}

fn after(seconds: i64) -> Timestamp {
    base().plus_seconds(seconds).unwrap()
}

fn market(end: Option<Timestamp>) -> Market {
    Market {
        condition_id: "MKT".to_string(),
        slug: "btc-updown-5m-1778544300".to_string(),
        question: "Bitcoin up or down?".to_string(),
        yes_token_id: "Y".to_string(),
        no_token_id: "N".to_string(),
        end_date: end,
        neg_risk: false,
    }
}

fn book(id: &str, price: &str, size: &str) -> BookState {
    let mut b = BookState::new(id, "MKT");
    b.asks.replace_levels(&[(dec(price), dec(size))]);
    b
}

fn books(yes: &str, no: &str) -> StringMap<BookState> {
    let mut m = StringMap::new();
    m.insert("Y".to_string(), book("Y", yes, "100"));
    m.insert("N".to_string(), book("N", no, "100"));
    m
}

fn reason(d: &Decision) -> &str {
    d.skip_reason.as_deref().unwrap_or("")
}

fn signals(value: f64, ratio: &str, magnitude: &str) -> StringMap<CexSignal> {
    let mut m = StringMap::new();
    m.insert(
        "BTC-USD".to_string(),
        CexSignal {
            spot: Some(double(63000.0)),
            momentum: Some(Momentum {
                value: double(value),
                ratio: Some(dec(ratio)),
                magnitude: Some(dec(magnitude)),
            }),
        },
    );
    m
}

#[test]
fn dedup_blocks_within_window() {
    let mut d = DedupState::default();
    let t = base();
    assert!(d.should_emit("MKT", "YES", t, 60));
    d.record("MKT", "YES", t);
    assert!(!d.should_emit("MKT", "YES", after(30), 60));
    assert!(d.should_emit("MKT", "YES", after(61), 60));
    assert!(d.should_emit("MKT", "NO", after(30), 60));
}

#[test]
fn dedup_ends_with_the_window() {
    let mut d = DedupState::default();
    d.record("MKT", "YES", base());
    assert!(!d.should_emit("MKT", "YES", after(59), 60));
    assert!(d.should_emit("MKT", "YES", after(60), 60));
    assert!(d.should_emit("OTHER", "YES", after(1), 60));
    d.record("MKT", "YES", after(60));
    assert!(!d.should_emit("MKT", "YES", after(61), 60));
}

fn lag(yes: &str, no: &str, s: &StringMap<CexSignal>, m: &Market, dedup: &mut DedupState) -> Decision {
    let cfg = LagArbConfig::default();
    let (a, b) = (book("Y", yes, "100"), book("N", no, "100"));
    assert!(lag_arb::is_lag_defined(m, &a, &b, s, &cfg));
    lag_arb::evaluate_at(m, &a, &b, s, &cfg, dedup, base())
}

#[test]
fn a_rise_buys_yes_and_a_fall_buys_no() {
    let m = market(Some(after(300)));
    let mut dedup = DedupState::default();
    let d = lag("0.40", "0.60", &signals(0.001, "2", "0.001"), &m, &mut dedup);
    assert_eq!(d.decision, DecisionKind::Enter);
    assert_eq!(d.direction.as_deref(), Some("YES"));
    assert_eq!(d.strategy, "A");
    assert_eq!(d.skip_reason, None);
    // Twenty dollars at forty cents.
    assert_eq!(d.size_usdc, dec("20"));
    assert_eq!(d.edge_per_unit, dec("0.001"));
    // 0.55 * 0.6 * 50 - 0.45 * 0.4 * 50.
    assert_eq!(d.expected_pnl_usdc, dec("7.5"));
    assert_eq!(d.cex_product.as_deref(), Some("BTC-USD"));
    assert_eq!(d.cex_spot, Some(double(63000.0)));
    assert_eq!(d.cex_edge, Some(double(0.001)));
    assert_eq!(d.ttr_seconds, Some(300));
    assert_eq!(d.sum_ask, dec("1"));
    let d = lag("0.40", "0.60", &signals(-0.001, "2", "0.001"), &m, &mut dedup);
    assert_eq!(d.direction.as_deref(), Some("NO"));
    assert_eq!(d.decision, DecisionKind::Enter);
    let d = lag("0.40", "0.60", &signals(-0.001, "2", "0.001"), &m, &mut dedup);
    assert_eq!(reason(&d), "dedup");
}

#[test]
fn the_size_is_capped_and_limited_by_the_offer() {
    let m = market(Some(after(300)));
    let mut dedup = DedupState::default();
    let d = lag("0.60", "0.40", &signals(0.0025, "5", "0.0025"), &m, &mut dedup);
    // Fifty dollars at sixty cents is 83.33 shares.
    assert!(d.size_usdc <= dec("50") && d.size_usdc > dec("49.99"));
    let mut dedup = DedupState::default();
    let d = lag("0.10", "0.90", &signals(0.0025, "5", "0.0025"), &m, &mut dedup);
    assert_eq!(d.size_usdc, dec("10"));
}

#[test]
fn strategy_a_skips_for_each_reason() {
    let s = signals(0.001, "2", "0.001");
    let none = &mut DedupState::default();
    let mut m = market(Some(after(300)));
    m.neg_risk = true;
    assert_eq!(reason(&lag("0.4", "0.6", &s, &m, none)), "neg_risk");
    for end in [None, Some(after(29)), Some(after(601))] {
        assert_eq!(reason(&lag("0.4", "0.6", &s, &market(end), none)), "ttr_too_low");
    }
    let m = market(Some(after(300)));
    assert_eq!(reason(&lag("0.4", "0.98", &s, &m, none)), "price_out_of_range");
    assert_eq!(reason(&lag("0.02", "0.6", &s, &m, none)), "price_out_of_range");
    assert_eq!(reason(&lag("0.70", "0.3", &s, &m, none)), "price_out_of_range");
    assert_eq!(reason(&lag("0.4", "0.6", &StringMap::new(), &m, none)), "no_cex_data");
    let mut quiet = StringMap::new();
    quiet.insert("BTC-USD".to_string(), CexSignal { spot: None, momentum: None });
    assert_eq!(reason(&lag("0.4", "0.6", &quiet, &m, none)), "no_cex_data");
    let weak = signals(0.00049, "0.98", "0.00049");
    assert_eq!(reason(&lag("0.4", "0.6", &weak, &m, none)), "no_edge");
    let mut other = market(Some(after(300)));
    other.slug = "trump-2028".to_string();
    assert_eq!(reason(&lag("0.4", "0.6", &s, &other, none)), "no_cex_data");
    let flat = signals(0.001, "0", "0.001");
    assert_eq!(reason(&lag("0.4", "0.6", &flat, &m, none)), "liquidity_too_low");
    let empty = BookState::new("Y", "MKT");
    let cfg = LagArbConfig::default();
    let d = lag_arb::evaluate_at(&m, &empty, &book("N", "0.6", "1"), &s, &cfg, none, base());
    assert_eq!(reason(&d), "liquidity_too_low");
}

#[test]
fn moves_are_judged_by_sign_size_and_price() {
    let cfg = LagArbConfig::default();
    let m = |x: f64| Momentum { value: double(x), ratio: None, magnitude: None };
    assert_eq!(judge_move(&m(0.01), dec("0.5"), dec("0.9"), &cfg, false, false), Ok(true));
    assert_eq!(judge_move(&m(-0.01), dec("0.9"), dec("0.5"), &cfg, false, false), Ok(false));
    assert_eq!(judge_move(&m(f64::NAN), dec("0.9"), dec("0.5"), &cfg, false, false), Ok(false));
    assert_eq!(
        judge_move(&m(0.01), dec("0.7"), dec("0.1"), &cfg, false, false),
        Err("price_out_of_range")
    );
    assert_eq!(judge_move(&m(0.01), dec("0.5"), dec("0.1"), &cfg, true, false), Err("dedup"));
    assert_eq!(judge_move(&m(0.01), dec("0.5"), dec("0.1"), &cfg, false, true), Ok(true));
    assert_eq!(judge_move(&m(0.0), dec("0.5"), dec("0.1"), &cfg, false, false), Err("no_edge"));
    assert_eq!(judge_move(&m(0.0005), dec("0.5"), dec("0.1"), &cfg, false, false), Ok(true));
}

#[test]
fn strategy_a_enters_a_market_once_per_window() {
    let mut s = LagArbStrategy::new(LagArbConfig::default());
    s.register_market(market(Timestamp::now().plus_seconds(300)));
    assert_eq!(s.market_id_for_asset("Y"), Some("MKT"));
    let sig = signals(0.001, "2", "0.001");
    let b = books("0.40", "0.60");
    match s.try_evaluate_market("MKT", &b, &sig) {
        Checked::Value(Some(d)) => assert_eq!(d.decision, DecisionKind::Enter),
        _ => panic!("an entry was expected"),
    }
    match s.try_evaluate_market("MKT", &b, &sig) {
        Checked::Value(Some(d)) => assert_eq!(reason(&d), "dedup"),
        _ => panic!("a skip was expected"),
    }
    assert!(!s.dedup().should_emit("MKT", "YES", Timestamp::now(), 30));
    match s.try_evaluate_market("OTHER", &b, &sig) {
        Checked::Value(None) => {}
        _ => panic!("nothing was expected"),
    }
}

fn pure_config() -> BilateralPureConfig {
    BilateralPureConfig {
        fee_rate_bps: 180,
        min_edge_per_unit: dec("0.02"),
        max_edge_per_unit: dec("0.08"),
        slippage_buffer_bps: 20,
        max_shares: dec("40"),
        min_ttr_seconds: 120,
        min_liquidity_usdc: dec("30"),
    }
}

fn pure(m: &Market, yes: &str, no: &str) -> Decision {
    let cfg = pure_config();
    let (a, b) = (book("Y", yes, "100"), book("N", no, "90"));
    assert!(bilateral_pure::is_pure_defined(m, &a, &b, &cfg));
    bilateral_pure::evaluate_at(m, &a, &b, &cfg, base())
}

#[test]
fn strategy_b_enters_on_an_edge_within_bounds() {
    let d = pure(&market(Some(after(300))), "0.45", "0.50");
    assert_eq!(d.decision, DecisionKind::Enter);
    assert_eq!(d.direction.as_deref(), Some("BOTH"));
    assert_eq!(d.strategy, "B");
    // 1 - 0.95 - 0.0020048... - 0.00225 - 0.002.
    assert_eq!(d.edge_per_unit, dec("0.043745250"));
    assert_eq!(d.size_usdc, dec("38"));
    assert_eq!(d.expected_pnl_usdc, dec("1.74981"));
    assert_eq!(d.size_yes_available, dec("100"));
    assert_eq!(d.size_no_available, dec("90"));
    assert_eq!(d.skip_reason, None);
}

#[test]
fn strategy_b_skips_for_each_reason() {
    let mut m = market(Some(after(300)));
    assert_eq!(reason(&pure(&m, "0.50", "0.50")), "no_edge");
    assert_eq!(reason(&pure(&m, "0.40", "0.45")), "edge_too_high_phantom");
    assert_eq!(reason(&pure(&m, "0.01", "0.50")), "price_out_of_range");
    assert_eq!(reason(&pure(&m, "0.50", "0.99")), "price_out_of_range");
    assert_eq!(reason(&pure(&m, "0.29", "0.60")), "liquidity_too_low");
    assert_eq!(reason(&pure(&market(Some(after(119))), "0.45", "0.50")), "ttr_too_low");
    assert_eq!(pure(&market(Some(after(120))), "0.45", "0.50").decision, DecisionKind::Enter);
    assert_eq!(pure(&market(None), "0.45", "0.50").decision, DecisionKind::Enter);
    m.neg_risk = true;
    assert_eq!(reason(&pure(&m, "0.45", "0.50")), "neg_risk");
    let empty = BookState::new("Y", "MKT");
    let d = bilateral_pure::evaluate_at(
        &market(None),
        &empty,
        &book("N", "0.5", "1"),
        &pure_config(),
        base(),
    );
    assert_eq!(reason(&d), "liquidity_too_low");
}

#[test]
fn edges_are_judged_by_their_bounds() {
    let cfg = pure_config();
    assert_eq!(judge_edge(dec("0.02"), dec("50"), dec("60"), &cfg), Ok(dec("40")));
    assert_eq!(judge_edge(dec("0.08"), dec("5"), dec("60"), &cfg), Ok(dec("5")));
    assert_eq!(judge_edge(dec("0.0199"), dec("5"), dec("6"), &cfg), Err("no_edge"));
    assert_eq!(judge_edge(dec("0.0801"), dec("5"), dec("6"), &cfg), Err("edge_too_high_phantom"));
    assert_eq!(judge_edge(dec("0.05"), dec("0"), dec("6"), &cfg), Err("liquidity_too_low"));
}

#[test]
fn strategy_b_looks_up_its_markets() {
    let mut s = BilateralPureStrategy::new(pure_config());
    s.register_market(market(None));
    assert_eq!(s.tracked_assets().len(), 2);
    assert_eq!(s.market_id_for_asset("N"), Some("MKT"));
    assert_eq!(s.cfg().max_shares, dec("40"));
    let b = books("0.45", "0.50");
    match s.try_evaluate_market("MKT", &b) {
        Checked::Value(Some(d)) => assert_eq!(d.decision, DecisionKind::Enter),
        _ => panic!("an entry was expected"),
    }
    assert!(s.evaluate_market("OTHER", &b).is_none());
}

fn hybrid_config() -> HybridConfig {
    HybridConfig { bilateral: pure_config(), cex_tolerance: double(0.05) }
}

fn cex(price: Option<f64>) -> StringMap<CexState> {
    let mut s = CexState::new("BTC-USD");
    if let Some(p) = price {
        s.update(double(p), base(), Double::zero());
    }
    let mut m = StringMap::new();
    m.insert("BTC-USD".to_string(), s);
    m
}

fn step(m: &Market, yes: &str, spot: Option<f64>, strike: Option<f64>) -> HybridStep {
    let (a, b) = (book("Y", yes, "100"), book("N", "0.50", "90"));
    let mut strikes = StringMap::new();
    if let Some(k) = strike {
        strikes.insert("MKT".to_string(), double(k));
    }
    hybrid::evaluate_at(m, &a, &b, &cex(spot), &strikes, &hybrid_config(), base())
}

#[test]
fn strategy_c_follows_b_until_the_model_is_needed() {
    let m = market(Some(after(300)));
    match step(&m, "0.50", Some(1.0), Some(1.0)) {
        HybridStep::Done(d) => {
            assert_eq!(reason(&d), "no_edge");
            assert_eq!(d.strategy, "C");
        }
        _ => panic!("B skips"),
    }
    match step(&m, "0.45", None, Some(1.0)) {
        HybridStep::Done(d) => {
            assert_eq!(d.decision, DecisionKind::Enter);
            assert_eq!(d.cex_product.as_deref(), Some("BTC-USD"));
            assert_eq!(d.cex_spot, None);
        }
        _ => panic!("there is no spot"),
    }
    match step(&m, "0.45", Some(63000.0), None) {
        HybridStep::Done(d) => {
            assert_eq!(d.cex_spot, Some(double(63000.0)));
            assert_eq!(d.cex_strike, None);
        }
        _ => panic!("there is no strike"),
    }
    match step(&m, "0.45", Some(63000.0), Some(62900.0)) {
        HybridStep::NeedsModel(d) => {
            assert_eq!(d.decision, DecisionKind::Enter);
            assert_eq!(d.cex_strike, Some(double(62900.0)));
        }
        _ => panic!("the model is needed"),
    }
    let mut other = market(None);
    other.slug = "trump".to_string();
    match step(&other, "0.45", Some(1.0), Some(1.0)) {
        HybridStep::Done(d) => assert_eq!(d.cex_product, None),
        _ => panic!("there is no product"),
    }
}

fn pending() -> Decision {
    match step(&market(Some(after(300))), "0.45", Some(63000.0), Some(62900.0)) {
        HybridStep::NeedsModel(d) => d,
        HybridStep::Done(_) => panic!("the model is needed"),
    }
}

#[test]
fn the_model_vetoes_only_on_disagreement() {
    let reading = |edge: f64| ModelReading {
        sigma_annual: double(0.6),
        probability: Some((double(0.5), double(edge))),
    };
    for edge in [0.051, -0.051] {
        let d = conclude(pending(), true, &reading(edge), double(0.05));
        assert_eq!(reason(&d), "cex_disagrees");
        assert_eq!(d.decision, DecisionKind::Skip);
        assert_eq!(d.cex_edge, Some(double(edge)));
        assert_eq!(d.p_model_yes, Some(double(0.5)));
    }
    for edge in [0.05, -0.05, 0.0, f64::NAN] {
        let d = conclude(pending(), true, &reading(edge), double(0.05));
        assert_eq!(d.decision, DecisionKind::Enter);
        assert_eq!(d.cex_sigma_annual, Some(double(0.6)));
    }
    let d = conclude(pending(), false, &reading(1.0), double(0.05));
    assert_eq!(d.decision, DecisionKind::Enter);
    assert_eq!(d.p_model_yes, None);
    let silent = ModelReading { sigma_annual: double(0.6), probability: None };
    let d = conclude(pending(), true, &silent, double(0.05));
    assert_eq!(d.decision, DecisionKind::Enter);
    assert_eq!(d.cex_edge, None);
    assert_eq!(d.cex_sigma_annual, Some(double(0.6)));
}

#[test]
fn a_strike_is_set_in_the_first_seconds_and_stays() {
    let mut s = HybridStrategy::new(hybrid_config());
    s.register_market(market(Some(after(300))));
    assert_eq!(s.try_compute_strike_at("MKT", &cex(Some(1.5)), after(-1)), None);
    assert_eq!(s.try_compute_strike_at("MKT", &cex(Some(1.5)), after(30)), None);
    assert_eq!(s.try_compute_strike_at("MKT", &cex(None), after(5)), None);
    assert_eq!(s.try_compute_strike_at("MKT", &StringMap::new(), after(5)), None);
    assert_eq!(s.try_compute_strike_at("OTHER", &cex(Some(1.5)), after(5)), None);
    assert_eq!(s.strike_cache().len(), 0);
    assert_eq!(s.try_compute_strike_at("MKT", &cex(Some(1.5)), after(29)), Some(double(1.5)));
    assert_eq!(s.try_compute_strike_at("MKT", &cex(Some(9.0)), after(200)), Some(double(1.5)));
    assert_eq!(s.strike_cache().get("MKT"), Some(&double(1.5)));
}

#[test]
fn strategy_c_sets_the_strike_before_it_looks() {
    let mut s = HybridStrategy::new(hybrid_config());
    s.register_market(market(Timestamp::now().plus_seconds(295)));
    assert_eq!(s.tracked_assets().len(), 2);
    assert_eq!(s.cex_tolerance(), double(0.05));
    match s.try_evaluate_market("MKT", &books("0.45", "0.50"), &cex(Some(63000.0))) {
        Checked::Value(Some(HybridStep::NeedsModel(d))) => {
            assert_eq!(d.cex_strike, Some(double(63000.0)));
            let left = millis_to_close(s.market("MKT").unwrap(), d.timestamp).unwrap();
            assert!(left > 290_000 && left <= 295_000);
        }
        _ => panic!("the model is needed"),
    }
    assert_eq!(millis_to_close(&market(None), base()), None);
}

#[test]
fn a_stronger_move_spends_more_up_to_the_cap() {
    let cfg = LagArbConfig::default();
    let spent = |ratio: Option<&str>| {
        let m = Momentum { value: double(0.001), ratio: ratio.map(dec), magnitude: None };
        target_size(&m, &cfg).unwrap()
    };
    assert_eq!(spent(Some("1")), dec("10"));
    assert_eq!(spent(Some("2")), dec("20"));
    assert_eq!(spent(Some("2.5")), dec("25"));
    assert_eq!(spent(Some("5")), dec("50"));
    assert_eq!(spent(Some("6")), dec("50"));
    assert_eq!(spent(None), dec("10"));
}

#[test]
fn strategy_a_has_its_defaults() {
    let cfg = LagArbConfig::default();
    assert_eq!(cfg.momentum_threshold, double(0.0005));
    assert_eq!(cfg.momentum_window_s, 30);
    assert_eq!(cfg.dedup_window_s, 60);
    assert_eq!((cfg.min_ttr_seconds, cfg.max_ttr_seconds), (30, 600));
    assert_eq!((cfg.base_size_usdc, cfg.max_size_usdc), (dec("10"), dec("50")));
    assert_eq!((cfg.min_price_yes, cfg.max_price_yes), (dec("0.03"), dec("0.97")));
    let s = signals(0.001, "2", "0.001");
    for seconds in [30, 600] {
        let d = lag("0.40", "0.60", &s, &market(Some(after(seconds))), &mut DedupState::default());
        assert_eq!(d.decision, DecisionKind::Enter);
    }
}

#[test]
fn a_figure_overflows_only_where_it_is_worked_out() {
    let most = "79228162514264337593543950335";
    let b = books(most, most);
    let far = Timestamp::now().plus_seconds(100_000);
    let near = Timestamp::now().plus_seconds(300);
    let sig = signals(0.001, "2", "0.001");
    let mut a = LagArbStrategy::new(LagArbConfig::default());
    a.register_market(market(far));
    match a.try_evaluate_market("MKT", &b, &sig) {
        Checked::Value(Some(d)) => assert_eq!(reason(&d), "ttr_too_low"),
        _ => panic!("a skip was expected"),
    }
    a.register_market(market(near));
    assert!(matches!(a.try_evaluate_market("MKT", &b, &sig), Checked::Overflow));
    let past = Timestamp::now().plus_seconds(-5);
    let mut p = BilateralPureStrategy::new(pure_config());
    p.register_market(market(past));
    match p.try_evaluate_market("MKT", &b) {
        Checked::Value(Some(d)) => assert_eq!(reason(&d), "ttr_too_low"),
        _ => panic!("a skip was expected"),
    }
    p.register_market(market(far));
    assert!(matches!(p.try_evaluate_market("MKT", &b), Checked::Overflow));
    let mut c = HybridStrategy::new(hybrid_config());
    c.register_market(market(past));
    match c.try_evaluate_market("MKT", &b, &cex(None)) {
        Checked::Value(Some(HybridStep::Done(d))) => assert_eq!(reason(&d), "ttr_too_low"),
        _ => panic!("a skip was expected"),
    }
    c.register_market(market(far));
    assert!(matches!(c.try_evaluate_market("MKT", &b, &cex(None)), Checked::Overflow));
}
