//! The runs: which markets, what on an update, what goes out.

use bot_polymarket_rust::bilateral::BilateralArbStrategy;
use bot_polymarket_rust::book_state::BookState;
use bot_polymarket_rust::cex_feed::CexState;
use bot_polymarket_rust::config::Settings;
use bot_polymarket_rust::decimal::{Checked, Decimal};
use bot_polymarket_rust::double::Double;
use bot_polymarket_rust::live::{ArbSide, SafetyLimits};
use bot_polymarket_rust::live_runner::{
    self, live_step, take_profit_from, take_profit_pct, LiveMode, LiveStep, LiveUpdate,
};
use bot_polymarket_rust::runner::{self, update_strategy, Dispatch};
use bot_polymarket_rust::strategies::hybrid::HybridStep;
use bot_polymarket_rust::strategies::lag_arb::{CexSignal, LagArbStrategy, Momentum};
use bot_polymarket_rust::strategies::{Decision, DecisionKind};
use bot_polymarket_rust::string_map::StringMap;
use bot_polymarket_rust::timestamp::Timestamp;
use bot_polymarket_rust::trinity_runner::{self, should_log, TrinityRunner};
use bot_polymarket_rust::types::Market;

fn dec(text: &str) -> Decimal {
    Decimal::parse_exact(text).unwrap()
}

fn double(x: f64) -> Double {
    Double { bits: x.to_bits() }
}

fn settings() -> Settings {
    Settings::from_env(&StringMap::new()).unwrap()
}

fn market(id: &str) -> Market {
    Market {
        condition_id: id.to_string(),
        slug: "btc-updown-5m-1".to_string(),
        question: "?".to_string(),
        yes_token_id: format!("{}-Y", id),
        no_token_id: format!("{}-N", id),
        end_date: Timestamp::now().plus_seconds(300),
        neg_risk: false,
    }
}

fn book(id: &str, price: &str, size: &str) -> BookState {
    let mut b = BookState::new(id, "m");
    b.asks.replace_levels(&[(dec(price), dec(size))]);
    b
}

fn books(id: &str, yes: &str, no: &str) -> StringMap<BookState> {
    let (y, n) = (format!("{}-Y", id), format!("{}-N", id));
    let mut m = StringMap::new();
    m.insert(y.clone(), book(&y, yes, "50"));
    m.insert(n.clone(), book(&n, no, "50"));
    m
}

fn signals(value: f64) -> StringMap<CexSignal> {
    let mut m = StringMap::new();
    m.insert(
        "BTC-USD".to_string(),
        CexSignal {
            spot: Some(double(63000.0)),
            momentum: Some(Momentum {
                value: double(value),
                ratio: Some(dec("1")),
                magnitude: Some(dec("0.001")),
            }),
        },
    );
    m
}

#[test]
fn the_cap_is_what_the_budget_buys_at_fifty_cents() {
    assert_eq!(runner::max_shares_for(dec("20")), Some(dec("40")));
    let cfg = runner::bilateral_config(&settings()).unwrap();
    assert_eq!(cfg.max_shares, dec("40"));
    assert_eq!(cfg.fee_rate_bps, 180);
    assert_eq!(cfg.slippage_buffer_bps, 20);
    assert_eq!(cfg.min_edge_per_unit, dec("0.002"));
    assert_eq!(runner::max_shares_for(dec("79228162514264337593543950335")), None);
}

#[test]
fn an_update_is_dispatched_to_its_market() {
    let mut s = BilateralArbStrategy::new(runner::bilateral_config(&settings()).unwrap());
    s.register_market(market("1"));
    let b = books("1", "0.40", "0.50");
    match runner::dispatch(&s, &b, "1-N") {
        Dispatch::Found(o) => assert_eq!(o.legs[0].size_shares, dec("40")),
        _ => panic!("there is an opportunity"),
    }
    assert!(matches!(runner::dispatch(&s, &b, "2-N"), Dispatch::NotFollowed));
    let b = books("1", "0.60", "0.50");
    assert!(matches!(runner::dispatch(&s, &b, "1-Y"), Dispatch::Nothing));
}

#[test]
fn a_new_list_adds_and_removes_markets() {
    let mut s = BilateralArbStrategy::new(runner::bilateral_config(&settings()).unwrap());
    let added = update_strategy(&mut s, &vec![market("1"), market("2")]);
    assert_eq!(added.len(), 4);
    assert_eq!(added.get("2-N").map(String::as_str), Some("2"));
    let added = update_strategy(&mut s, &vec![market("2"), market("3")]);
    assert_eq!(added.len(), 2);
    assert!(added.contains_key("3-Y") && added.contains_key("3-N"));
    assert_eq!(s.market_id_for_asset("1-Y"), None);
    assert_eq!(s.market_id_for_asset("2-Y"), Some("2"));
    assert_eq!(s.market_id_for_asset("3-N"), Some("3"));
    assert_eq!(s.tracked_assets().len(), 4);
    assert!(update_strategy(&mut s, &Vec::new()).is_empty());
    assert_eq!(s.tracked_assets().len(), 0);
}

#[test]
fn a_market_is_new_if_its_first_asset_is() {
    let mut s = BilateralArbStrategy::new(runner::bilateral_config(&settings()).unwrap());
    update_strategy(&mut s, &vec![market("1")]);
    let mut again = market("1");
    again.no_token_id = "other".to_string();
    assert!(update_strategy(&mut s, &vec![again]).is_empty());
    assert_eq!(s.market_id_for_asset("other"), None);
    assert_eq!(s.market_id_for_asset("1-N"), Some("1"));
}

#[test]
fn trinity_goes_by_permissive_filters() {
    let b = trinity_runner::bilateral_config(&settings()).unwrap();
    assert_eq!(b.min_edge_per_unit, dec("0.001"));
    assert_eq!(b.max_edge_per_unit, dec("0.30"));
    assert_eq!(b.min_ttr_seconds, 10);
    assert_eq!(b.min_liquidity_usdc, dec("1"));
    assert_eq!(b.max_shares, dec("40"));
    let c = trinity_runner::hybrid_config(&settings()).unwrap();
    assert_eq!(c.cex_tolerance, double(0.05));
    assert_eq!(c.bilateral.max_shares, dec("40"));
    assert_eq!(trinity_runner::products(), vec!["BTC-USD".to_string(), "ETH-USD".to_string()]);
}

#[test]
fn trinity_looks_at_a_market_three_times() {
    let mut t = TrinityRunner::new(settings()).strategies().unwrap();
    let assets = t.register_markets(&vec![market("1"), market("2")]);
    assert_eq!(assets.len(), 4);
    let mut cex = StringMap::new();
    cex.insert("BTC-USD".to_string(), CexState::new("BTC-USD"));
    let b = books("1", "0.40", "0.50");
    let u = t.dispatch("1-Y", &b, &signals(0.001), &cex).unwrap();
    match u.a {
        Checked::Value(Some(d)) => {
            assert_eq!(d.decision, DecisionKind::Enter);
            assert!(should_log(&d));
        }
        _ => panic!("A decides"),
    }
    match u.b {
        Checked::Value(Some(d)) => {
            assert_eq!(d.decision, DecisionKind::Enter);
            assert!(should_log(&d));
        }
        _ => panic!("B decides"),
    }
    match u.c {
        Checked::Value(Some(HybridStep::Done(d))) => assert!(should_log(&d)),
        _ => panic!("C decides without a price"),
    }
    let u = t.dispatch("1-N", &b, &signals(0.001), &cex).unwrap();
    match u.a {
        Checked::Value(Some(d)) => {
            assert_eq!(d.skip_reason.as_deref(), Some("dedup"));
            assert!(should_log(&d));
        }
        _ => panic!("A decides"),
    }
    let u = t.dispatch("2-N", &b, &signals(0.001), &cex).unwrap();
    assert!(matches!(u.b, Checked::Value(None)));
    assert!(t.dispatch("3-N", &b, &signals(0.001), &cex).is_none());
    assert_eq!(t.hybrid().strike_cache().len(), 0);
}

#[test]
fn only_known_reasons_are_recorded() {
    let blank = || Decision::blank("B", &market("1"), Timestamp::epoch());
    assert!(!should_log(&blank()));
    assert!(!should_log(&blank().skipped("bored")));
    for r in ["neg_risk", "ttr_too_low", "liquidity_too_low", "price_out_of_range", "no_edge",
        "edge_too_high_phantom", "no_cex_data", "cex_disagrees", "no_sigma", "no_strike", "dedup"]
    {
        assert!(should_log(&blank().skipped(r)));
    }
}

fn entry(direction: Option<&str>, yes: &str) -> Decision {
    let mut d = Decision::blank("A", &market("1"), Timestamp::epoch());
    d.decision = DecisionKind::Enter;
    d.direction = direction.map(|s| s.to_string());
    d.price_yes = dec(yes);
    d.price_no = dec("0.6");
    d.size_usdc = dec("3");
    d
}

#[test]
fn an_entry_becomes_an_order() {
    match live_step(&entry(Some("YES"), "0.4"), LiveMode::Live, true) {
        LiveStep::Trade(leg) => {
            assert_eq!(leg.token_id, "1-Y");
            assert_eq!(leg.side, ArbSide::Buy);
            assert_eq!(leg.size_usdc, dec("3"));
        }
        _ => panic!("an order was expected"),
    }
    match live_step(&entry(Some("NO"), "0"), LiveMode::Live, true) {
        LiveStep::Trade(leg) => assert_eq!(leg.token_id, "1-N"),
        _ => panic!("an order was expected"),
    }
    assert!(matches!(live_step(&entry(Some("YES"), "0"), LiveMode::Live, true), LiveStep::ZeroPrice));
    assert!(matches!(
        live_step(&entry(Some("BOTH"), "0.4"), LiveMode::Live, true),
        LiveStep::UnknownDirection
    ));
    assert!(matches!(live_step(&entry(None, "0.4"), LiveMode::Live, true), LiveStep::Record));
    let e = entry(Some("YES"), "0.4");
    assert!(matches!(live_step(&e, LiveMode::Live, false), LiveStep::Record));
    assert!(matches!(live_step(&e, LiveMode::DryRun, true), LiveStep::Record));
    let skip = Decision::blank("A", &market("1"), Timestamp::epoch());
    assert!(matches!(live_step(&skip, LiveMode::Live, true), LiveStep::Nothing));
}

#[test]
fn live_updates_are_decided() {
    let cfg = live_runner::lag_config(&SafetyLimits::default());
    assert_eq!(cfg.base_size_usdc, dec("3"));
    assert_eq!(cfg.max_size_usdc, dec("3"));
    assert_eq!(cfg.dedup_window_s, 60);
    assert_eq!((cfg.min_ttr_seconds, cfg.max_ttr_seconds), (30, 600));
    assert_eq!(cfg.momentum_threshold, double(0.0003));
    let mut s = LagArbStrategy::new(cfg);
    assert_eq!(live_runner::register_markets(&mut s, &vec![market("1"), market("2")]).len(), 4);
    assert_eq!(live_runner::products().len(), 4);
    let b = books("1", "0.40", "0.60");
    match live_runner::dispatch(&mut s, "1-Y", &b, &signals(0.001), LiveMode::Live, true) {
        LiveUpdate::Decided(d, LiveStep::Trade(leg)) => {
            assert_eq!(d.size_usdc, leg.size_usdc);
            assert_eq!(leg.size_usdc, dec("3"));
            assert_eq!(leg.token_id, "1-Y");
        }
        _ => panic!("an order was expected"),
    }
    match live_runner::dispatch(&mut s, "1-Y", &b, &signals(0.001), LiveMode::Live, true) {
        LiveUpdate::Decided(_, LiveStep::Nothing) => {}
        _ => panic!("a second order comes too soon"),
    }
    let none = live_runner::dispatch(&mut s, "2-Y", &b, &signals(0.001), LiveMode::Live, true);
    assert!(matches!(none, LiveUpdate::NoBooks));
    let none = live_runner::dispatch(&mut s, "3-Y", &b, &signals(0.001), LiveMode::Live, true);
    assert!(matches!(none, LiveUpdate::NotFollowed));
}

#[test]
fn take_profit_is_fifteen_unless_set() {
    assert_eq!(take_profit_pct(None), Ok(Some(dec("15"))));
    for off in ["off", " OFF ", "Off", "0", " 0"] {
        assert_eq!(take_profit_pct(Some(&off.to_string())), Ok(None));
    }
    assert_eq!(take_profit_pct(Some(&" 12.5 ".to_string())), Ok(Some(dec("12.5"))));
    assert_eq!(take_profit_pct(Some(&"0.0".to_string())), Ok(Some(dec("0"))));
    assert_eq!(take_profit_pct(Some(&"much".to_string())), Err(()));
    assert_eq!(take_profit_from("off", Some(dec("1"))), Ok(None));
    assert_eq!(take_profit_from("7", Some(dec("7"))), Ok(Some(dec("7"))));
}

#[test]
fn the_private_key_has_two_names() {
    let mut v: StringMap<String> = StringMap::new();
    assert!(live_runner::private_key_of(&v).is_none());
    v.insert("POLYMARKET_PRIVATE_KEY".to_string(), "b".to_string());
    assert_eq!(live_runner::private_key_of(&v).map(String::as_str), Some("b"));
    v.insert("PRIVATE_KEY".to_string(), "a".to_string());
    assert_eq!(live_runner::private_key_of(&v).map(String::as_str), Some("a"));
}
