//! Take-profit orders.

use bot_polymarket_rust::decimal::Decimal;
use bot_polymarket_rust::tp_manager::{
    checked_round_down, fine_tick, judge_target, max_tp_price, plan_figures, plan_position, round_down_to_tick,
    take_profit_price, tick_size_for, usual_tick, Position, TpFigures, TpPlan, TpReport,
};

fn dec(text: &str) -> Decimal {
    Decimal::parse_exact(text).unwrap()
}

#[test]
fn tick_normal_zone() {
    assert_eq!(tick_size_for(dec("0.50")), usual_tick());
    assert_eq!(tick_size_for(dec("0.10")), usual_tick());
    assert_eq!(tick_size_for(dec("0.90")), usual_tick());
}

#[test]
fn tick_low_zone() {
    assert_eq!(tick_size_for(dec("0.05")), fine_tick());
    assert_eq!(tick_size_for(dec("0.95")), fine_tick());
}

#[test]
fn round_down_basic() {
    assert_eq!(round_down_to_tick(dec("0.567"), usual_tick()), dec("0.56"));
    assert_eq!(round_down_to_tick(dec("0.045"), fine_tick()), dec("0.045"));
    assert_eq!(round_down_to_tick(dec("0.0455"), fine_tick()), dec("0.045"));
}

#[test]
fn tp_calc_15pct_normal() {
    let avg = dec("0.50");
    let share = dec("15").checked_div(dec("100")).unwrap();
    let raw = avg.checked_mul(Decimal::one().checked_add(share).unwrap()).unwrap();
    assert_eq!(raw, dec("0.575"));
    let tick = tick_size_for(raw);
    let tp = round_down_to_tick(raw.min(max_tp_price()), tick);
    assert_eq!(tp, dec("0.57"));
    assert_eq!(take_profit_price(avg, dec("15")), Some(dec("0.57")));
}

#[test]
fn tp_calc_caps_at_99() {
    let avg = dec("0.95");
    let share = dec("15").checked_div(dec("100")).unwrap();
    let raw = avg.checked_mul(Decimal::one().checked_add(share).unwrap()).unwrap();
    let capped = raw.min(max_tp_price());
    let tick = tick_size_for(capped);
    let tp = round_down_to_tick(capped, tick);
    assert_eq!(tp, dec("0.989"));
    assert_eq!(take_profit_price(avg, dec("15")), Some(dec("0.989")));
}

#[test]
fn ticks_are_constants() {
    assert_eq!(usual_tick(), dec("0.01"));
    assert_eq!(fine_tick(), dec("0.001"));
    assert_eq!(round_down_to_tick(dec("0.567"), Decimal::zero()), dec("0.567"));
    assert_eq!(round_down_to_tick(dec("-0.001"), usual_tick()), dec("-0.01"));
    assert_eq!(round_down_to_tick(dec("12.349"), usual_tick()), dec("12.34"));
    assert_eq!(tick_size_for(dec("0.0999")), fine_tick());
    assert_eq!(tick_size_for(dec("0.9001")), fine_tick());
}

fn position(size: &str, avg: &str, cur: &str) -> Position {
    Position {
        condition_id: "0xc".to_string(),
        asset_token_id: "7".to_string(),
        size: size.to_string(),
        avg_price: avg.to_string(),
        cur_price: cur.to_string(),
        redeemable: false,
    }
}

#[test]
fn an_open_position_is_sold_at_its_target() {
    match plan_position(&position("10.019", "0.50", "0.52"), dec("15")) {
        TpPlan::Post(f) => {
            assert_eq!(f.size, dec("10.01"));
            assert_eq!(f.avg_price, dec("0.50"));
            assert_eq!(f.cur_price, dec("0.52"));
            assert_eq!(f.tp_price, dec("0.57"));
        }
        p => panic!("{:?}", p),
    }
}

#[test]
fn positions_are_left_alone_for_each_reason() {
    let mut p = position("10", "0.50", "0.52");
    p.redeemable = true;
    assert!(matches!(plan_position(&p, dec("15")), TpPlan::Redeemable));
    assert!(matches!(plan_position(&position("0.009", "0.5", "0.5"), dec("15")), TpPlan::ZeroSize));
    assert!(matches!(plan_position(&position("ten", "0.5", "0.5"), dec("15")), TpPlan::ZeroSize));
    assert!(matches!(plan_position(&position("10", "0", "0.5"), dec("15")), TpPlan::ZeroSize));
    match plan_position(&position("10", "0.99", "0.5"), dec("15")) {
        TpPlan::Unprofitable(f) => assert_eq!(f.tp_price, dec("0.989")),
        p => panic!("{:?}", p),
    }
    assert!(matches!(plan_position(&position("10", "0.5", "0.57"), dec("15")), TpPlan::Reached(_)));
    assert!(matches!(
        plan_position(&position("1.5", "0.5", "0.5"), dec("15")),
        TpPlan::BelowMinNotional(_)
    ));
    let most = "79228162514264337593543950335";
    assert!(matches!(plan_position(&position(most, "0.5", "0.5"), dec("15")), TpPlan::Overflow));
    assert!(matches!(
        plan_figures(dec("1"), dec(most), dec("1"), false, dec("15")),
        TpPlan::Overflow
    ));
}

fn figures(avg: &str, cur: &str, tp: &str) -> TpFigures {
    TpFigures { size: dec("10"), avg_price: dec(avg), cur_price: dec(cur), tp_price: dec(tp) }
}

#[test]
fn targets_are_judged() {
    let one = Some(dec("1"));
    assert!(matches!(judge_target(figures("0.5", "0.5", "0.6"), one), TpPlan::Post(_)));
    assert!(matches!(
        judge_target(figures("0.5", "0.5", "0.6"), Some(dec("0.99"))),
        TpPlan::BelowMinNotional(_)
    ));
    assert!(matches!(judge_target(figures("0.6", "0.7", "0.6"), one), TpPlan::Unprofitable(_)));
    assert!(matches!(judge_target(figures("0.5", "0.6", "0.6"), one), TpPlan::Reached(_)));
    assert!(matches!(judge_target(figures("0.5", "0.5", "0.6"), None), TpPlan::Overflow));
}

#[test]
fn every_position_is_counted() {
    let mut r = TpReport::new(7);
    let p = position("10", "0.5", "0.5");
    let f = figures("0.5", "0.5", "0.6");
    r.note_skip(&p, &TpPlan::Redeemable);
    r.note_skip(&p, &TpPlan::ZeroSize);
    r.note_skip(&p, &TpPlan::Unprofitable(f));
    r.note_skip(&p, &TpPlan::Reached(f));
    r.note_skip(&p, &TpPlan::BelowMinNotional(f));
    r.note_post(&p, &f, Ok("id".to_string()));
    r.note_post(&p, &f, Err("no".to_string()));
    assert_eq!(r.total_positions, 7);
    assert_eq!(r.skipped_redeemable, 1);
    assert_eq!(r.skipped_zero_size, 1);
    assert_eq!(r.skipped_tp_capped_unprofitable, 1);
    assert_eq!(r.skipped_tp_already_reached, 1);
    assert_eq!(r.skipped_below_min_notional, 1);
    assert_eq!(r.posted_ok, 1);
    assert_eq!(r.posted_failed, 1);
    assert_eq!(r.orders.len(), 3);
    assert_eq!(r.orders[0].error.as_deref(), Some("tp_capped_unprofitable"));
    assert_eq!(r.orders[1].order_id.as_deref(), Some("id"));
    assert_eq!(r.orders[2].error.as_deref(), Some("no"));
    assert_eq!(r.orders[2].condition_id, "0xc");
}

#[test]
fn long_prices_are_rounded_down_exactly() {
    for (price, tick, down) in [
        ("7922816251426433759.3543950335", usual_tick(), "7922816251426433759.35"),
        ("0.9899999999", fine_tick(), "0.989"),
        ("79228162514264337593543950.335", fine_tick(), "79228162514264337593543950.335"),
        ("-7922816251426433759.3543950335", usual_tick(), "-7922816251426433759.36"),
        ("0", fine_tick(), "0"),
    ] {
        let once = checked_round_down(dec(price), tick).unwrap();
        assert_eq!(once, dec(down));
        assert_eq!(round_down_to_tick(once, tick), once);
    }
    assert!(checked_round_down(dec("79228162514264337593543950335"), usual_tick()).is_none());
}
