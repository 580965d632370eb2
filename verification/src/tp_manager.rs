//! Take-profit orders on open positions.
//!
//! For each position:
//! - it is left alone if it is redeemable, since its market has resolved, or if
//!   there is nothing to sell;
//! - the target is the average price raised by a percentage, below the 0.99 that
//!   is the limit of the exchange, and rounded down to the tick;
//! - it is left alone if the target is not above the average price, if the
//!   current price has reached the target already, or if the order would be worth
//!   less than a dollar;
//! - otherwise a limit order to sell goes out at the target.

use crate::decimal::{
    Decimal, Num, decimal_option, decimal_product, decimal_quotient, decimal_sum, decimal_text,
    fits, is_product, is_quotient_of, is_sum, lemma_pow10_28, lemma_pow10_adds,
    lemma_pow10_positive, lemma_units_sign, lemma_units_whole, max_mant, num_floor, num_min,
    number_or_zero, one_unit, oproduct, oquotient, osum, pow10, product_facts, quotient_facts,
    representable, rounding_keeps_the_order, shifted, units, what_fits_is_exact, whole,
    whole_num,
};
use crate::text::text_option;
use vstd::prelude::*;

verus! {

/// The finer tick, for prices near either end.
pub open spec fn tick_low() -> Num {
    Num { mant: 1, scale: 3 }
}

/// The usual tick.
pub open spec fn tick_normal() -> Num {
    Num { mant: 1, scale: 2 }
}

/// The highest target: one fine tick below the 0.99 at which the exchange stops.
pub open spec fn top_target() -> Num {
    Num { mant: 989, scale: 3 }
}

/// The tick of a price: fine below ten cents and above ninety.
pub open spec fn tick_of(price: Num) -> Num {
    if units(price) < units(Num { mant: 10, scale: 2 }) || units(price) > units(
        Num { mant: 90, scale: 2 },
    ) {
        tick_low()
    } else {
        tick_normal()
    }
}

/// A price rounded down to a whole number of ticks; nothing where it overflows.
pub open spec fn rounded_down(price: Num, tick: Num) -> Option<Num> {
    if tick.mant == 0 {
        Some(price)
    } else {
        match oquotient(Some(price), Some(tick)) {
            Some(q) => oproduct(Some(num_floor(q)), Some(tick)),
            None => None,
        }
    }
}

/// `r` is the last multiple of `tick` that is not above `price`.
pub open spec fn is_rounded_down(price: Num, tick: Num, r: Num) -> bool {
    &&& units(r) <= units(price) < units(r) + units(tick)
    &&& units(r) % units(tick) == 0
}

/// One of the two ticks.
pub open spec fn is_tick(tick: Num) -> bool {
    tick == tick_low() || tick == tick_normal()
}

/// The average price raised by a percentage.
pub open spec fn raised(avg_price: Num, tp_pct: Num) -> Option<Num> {
    oproduct(
        Some(avg_price),
        osum(Some(whole_num(1)), oquotient(Some(tp_pct), Some(whole_num(100)))),
    )
}

/// The steps that raise a price are a quotient, a sum and a product.
pub open spec fn raising_adds_up(avg_price: Num, tp_pct: Num) -> bool {
    let share = decimal_quotient(tp_pct, whole_num(100));
    let factor = decimal_sum(whole_num(1), share->0);
    &&& representable(avg_price)
    &&& representable(tp_pct)
    &&& is_quotient_of(tp_pct, whole_num(100), share)
    &&& share is Some ==> is_sum(whole_num(1), share->0, factor)
    &&& share is Some && factor is Some ==> is_product(
        avg_price,
        factor->0,
        decimal_product(avg_price, factor->0),
    )
}

/// The target for an average price: raised, capped, and rounded down.
pub open spec fn target_of(avg_price: Num, tp_pct: Num) -> Option<Num> {
    match raised(avg_price, tp_pct) {
        Some(raw) => {
            let capped = num_min(raw, top_target());
            rounded_down(capped, tick_of(capped))
        },
        None => None,
    }
}

/// The finer tick.
pub fn fine_tick() -> (r: Decimal)
    ensures
        r@ == tick_low(),
{
    Decimal::new(1, 3)
}

/// The usual tick.
pub fn usual_tick() -> (r: Decimal)
    ensures
        r@ == tick_normal(),
{
    Decimal::new(1, 2)
}

/// The highest target.
pub fn max_tp_price() -> (r: Decimal)
    ensures
        r@ == top_target(),
{
    Decimal::new(989, 3)
}

/// The tick of a price.
pub fn tick_size_for(price: Decimal) -> (r: Decimal)
    ensures
        r@ == tick_of(price@),
{
    let low = Decimal::new(10, 2);
    let high = Decimal::new(90, 2);
    if price < low || price > high {
        fine_tick()
    } else {
        usual_tick()
    }
}

/// A price rounded down to a whole number of ticks, unless it overflows. With one
/// of the two ticks the result is exact, and there is one unless the number of
/// ticks is too large to write down.
pub fn checked_round_down(price: Decimal, tick: Decimal) -> (r: Option<Decimal>)
    ensures
        decimal_option(r) == rounded_down(price@, tick@),
        is_tick(tick@) ==> (r is Some <==> representable(shifted(price@, tick@.scale))),
        is_tick(tick@) ==> (r matches Some(d) ==> is_rounded_down(price@, tick@, d@)),
{
    if tick.mantissa() == 0 {
        return Some(price);
    }
    let quotient = price.checked_div(tick);
    let result = match quotient {
        Some(q) => q.floor().checked_mul(tick),
        None => None,
    };
    proof {
        use_type_invariant(&price);
        if is_tick(tick@) {
            lemma_ticks(price@, tick@, decimal_option(quotient));
            if let Some(q) = quotient {
                lemma_rounded_down(price@, tick@, q@, decimal_option(result));
            }
        }
    }
    result
}

/// A price rounded down to a whole number of ticks.
pub fn round_down_to_tick(price: Decimal, tick: Decimal) -> (r: Decimal)
    requires
        rounded_down(price@, tick@) is Some,
    ensures
        rounded_down(price@, tick@) == Some(r@),
        is_tick(tick@) ==> is_rounded_down(price@, tick@, r@),
{
    checked_round_down(price, tick).unwrap()
}

/// Law: rounding a rounded price changes nothing.
pub proof fn rounding_twice_changes_nothing(price: Num, tick: Num, once: Num, twice: Num)
    requires
        is_rounded_down(price, tick, once),
        is_rounded_down(once, tick, twice),
    ensures
        units(twice) == units(once),
{
    let (a, b, w) = (units(once), units(twice), units(tick));
    assert(a == b) by (nonlinear_arith)
        requires
            a % w == 0,
            b % w == 0,
            b <= a < b + w,
            w > 0,
    ;
}

/// The number of ticks in a price is found exactly, where it can be written down.
proof fn lemma_ticks(price: Num, tick: Num, q: Option<Num>)
    requires
        representable(price),
        is_tick(tick),
        quotient_facts(price, tick, q),
    ensures
        q is Some <==> representable(shifted(price, tick.scale)),
        q matches Some(n) ==> representable(n) && units(n) * units(tick) == units(price)
            * one_unit(),
{
    let t = tick.scale;
    let s = price.scale;
    let n = shifted(price, t);
    lemma_pow10_28();
    lemma_units_whole(0);
    assert(whole(0) == 0);
    assert(1 * pow10(28 - t) == pow10(28 - t));
    assert(units(tick) == pow10(28 - t));
    lemma_pow10_adds(28 - t, t);
    if price.mant == 0 {
        assert(0 * pow10(28 - s) == 0);
        if s < t {
            assert(0 * pow10(t - s) == 0);
        }
        assert(0 * units(tick) == 0 && 0 * one_unit() == 0);
    } else if s >= t {
        lemma_pow10_adds(28 - s, t);
        assert(price.mant * pow10(28 - s + t) * pow10(28 - t) == price.mant * pow10(28 - s)
            * pow10(28)) by (nonlinear_arith)
            requires
                pow10(28 - s + t) == pow10(28 - s) * pow10(t),
                pow10(28 - t) * pow10(t) == pow10(28),
        ;
        assert(28 - (s - t) == 28 - s + t);
    } else {
        lemma_pow10_adds(28 - t, t - s);
        assert(price.mant * pow10(t - s) * pow10(28) * pow10(28 - t) == price.mant * pow10(28 - s)
            * pow10(28)) by (nonlinear_arith)
            requires
                pow10(28 - s) == pow10(28 - t) * pow10(t - s),
        ;
    }
}

/// The floor of a number, by its value.
proof fn lemma_floor(q: Num)
    requires
        representable(q),
    ensures
        whole(num_floor(q).mant) <= units(q) < whole(num_floor(q).mant + 1),
        fits(num_floor(q).mant, 0),
{
    let p = pow10(q.scale);
    let r = pow10(28 - q.scale);
    let k = q.mant / p;
    lemma_pow10_positive(q.scale);
    lemma_pow10_positive(28 - q.scale);
    lemma_pow10_adds(q.scale, 28 - q.scale);
    lemma_pow10_28();
    assert(k * p <= q.mant < (k + 1) * p) by (nonlinear_arith)
        requires
            p >= 1,
            k == q.mant / p,
    ;
    assert(k * (p * r) <= q.mant * r < (k + 1) * (p * r)) by (nonlinear_arith)
        requires
            k * p <= q.mant < (k + 1) * p,
            r >= 1,
    ;
    let top = max_mant();
    assert(-top <= k <= top) by (nonlinear_arith)
        requires
            p >= 1,
            top > 0,
            k * p <= q.mant < (k + 1) * p,
            -top <= q.mant <= top,
    ;
    assert(k * 1 == k);
}

/// Whole ticks, by their value.
proof fn lemma_rounded_down(price: Num, tick: Num, q: Num, result: Option<Num>)
    requires
        is_tick(tick),
        representable(q),
        units(q) * units(tick) == units(price) * one_unit(),
        product_facts(num_floor(q), tick, result),
    ensures
        result is Some,
        is_rounded_down(price, tick, result->0),
{
    let t = tick.scale;
    let k = num_floor(q).mant;
    let u = one_unit();
    lemma_pow10_28();
    lemma_pow10_positive(28 - t);
    assert(1 * pow10(28 - t) == pow10(28 - t));
    let w = units(tick);
    assert(w == pow10(28 - t));
    lemma_floor(q);
    // k ticks are not above the price, k + 1 are.
    assert(k * w <= units(price) < (k + 1) * w) by (nonlinear_arith)
        requires
            k * u <= units(q) < (k + 1) * u,
            units(q) * w == units(price) * u,
            w > 0,
            u > 0,
    {
        assert(k * u * w <= units(price) * u);
        assert(units(price) * u < (k + 1) * u * w);
    }
    assert(k * 1 == k);
    if k == 0 {
        lemma_units_whole(0);
        assert(whole(0) == 0);
        assert(0int % w == 0);
    } else {
        assert(result == Some(Num { mant: k * 1, scale: t }));
        assert(units(result->0) == k * w);
        assert((k * w) % w == 0) by (nonlinear_arith)
            requires
                w > 0,
        ;
    }
    assert((k + 1) * w == k * w + w) by (nonlinear_arith);
}

/// An open position, as the exchange lists it.
#[derive(Debug)]
pub struct Position {
    pub condition_id: String,
    pub asset_token_id: String,
    /// Amounts as texts; one that cannot be read counts as zero.
    pub size: String,
    pub avg_price: String,
    pub cur_price: String,
    pub redeemable: bool,
}

/// What became of a position.
#[derive(Debug)]
pub struct TpOrderResult {
    pub condition_id: String,
    pub asset_token_id: String,
    pub size: Decimal,
    pub avg_price: Decimal,
    pub cur_price: Decimal,
    pub tp_price: Decimal,
    pub order_id: Option<String>,
    pub error: Option<String>,
}

/// What a [`TpOrderResult`] says.
pub struct TpOrderView {
    pub condition_id: Seq<char>,
    pub asset_token_id: Seq<char>,
    pub size: Num,
    pub avg_price: Num,
    pub cur_price: Num,
    pub tp_price: Num,
    pub order_id: Option<Seq<char>>,
    pub error: Option<Seq<char>>,
}

impl View for TpOrderResult {
    type V = TpOrderView;

    open spec fn view(&self) -> TpOrderView {
        TpOrderView {
            condition_id: self.condition_id@,
            asset_token_id: self.asset_token_id@,
            size: self.size@,
            avg_price: self.avg_price@,
            cur_price: self.cur_price@,
            tp_price: self.tp_price@,
            order_id: text_option(self.order_id),
            error: text_option(self.error),
        }
    }
}

/// The figures of a position with a target.
#[derive(Debug, Clone, Copy)]
pub struct TpFigures {
    pub size: Decimal,
    pub avg_price: Decimal,
    pub cur_price: Decimal,
    pub tp_price: Decimal,
}

/// What [`TpFigures`] say.
pub struct TpFiguresView {
    pub size: Num,
    pub avg_price: Num,
    pub cur_price: Num,
    pub tp_price: Num,
}

impl View for TpFigures {
    type V = TpFiguresView;

    open spec fn view(&self) -> TpFiguresView {
        TpFiguresView {
            size: self.size@,
            avg_price: self.avg_price@,
            cur_price: self.cur_price@,
            tp_price: self.tp_price@,
        }
    }
}

/// What to do about a position.
#[derive(Debug, Clone, Copy)]
pub enum TpPlan {
    /// Its market has resolved.
    Redeemable,
    /// There is nothing to sell, or it cost nothing.
    ZeroSize,
    /// The target is not above the average price.
    Unprofitable(TpFigures),
    /// The current price has reached the target.
    Reached(TpFigures),
    /// The order would be worth less than a dollar.
    BelowMinNotional(TpFigures),
    /// Sell at the target.
    Post(TpFigures),
    /// A figure overflows.
    Overflow,
}

/// What a [`TpPlan`] says.
pub enum TpPlanView {
    Redeemable,
    ZeroSize,
    Unprofitable(TpFiguresView),
    Reached(TpFiguresView),
    BelowMinNotional(TpFiguresView),
    Post(TpFiguresView),
    Overflow,
}

impl View for TpPlan {
    type V = TpPlanView;

    open spec fn view(&self) -> TpPlanView {
        match self {
            TpPlan::Redeemable => TpPlanView::Redeemable,
            TpPlan::ZeroSize => TpPlanView::ZeroSize,
            TpPlan::Unprofitable(f) => TpPlanView::Unprofitable(f@),
            TpPlan::Reached(f) => TpPlanView::Reached(f@),
            TpPlan::BelowMinNotional(f) => TpPlanView::BelowMinNotional(f@),
            TpPlan::Post(f) => TpPlanView::Post(f@),
            TpPlan::Overflow => TpPlanView::Overflow,
        }
    }
}

/// The figures of a plan that has some.
pub open spec fn figures_of_plan(plan: TpPlanView) -> Option<TpFiguresView> {
    match plan {
        TpPlanView::Unprofitable(f) => Some(f),
        TpPlanView::Reached(f) => Some(f),
        TpPlanView::BelowMinNotional(f) => Some(f),
        TpPlanView::Post(f) => Some(f),
        _ => None,
    }
}

/// `target` is the last tick of the raised price and the cap.
pub open spec fn is_target(avg_price: Num, tp_pct: Num, target: Num) -> bool {
    raised(avg_price, tp_pct) matches Some(raw) && is_rounded_down(
        num_min(raw, top_target()),
        tick_of(num_min(raw, top_target())),
        target,
    )
}

/// What to do about a position with a target and with what the order would be
/// worth.
pub open spec fn plan_on(f: TpFiguresView, notional: Option<Num>) -> TpPlanView {
    if units(f.tp_price) <= units(f.avg_price) {
        TpPlanView::Unprofitable(f)
    } else if units(f.tp_price) <= units(f.cur_price) {
        TpPlanView::Reached(f)
    } else {
        match notional {
            None => TpPlanView::Overflow,
            Some(n) => if units(n) < units(whole_num(1)) {
                TpPlanView::BelowMinNotional(f)
            } else {
                TpPlanView::Post(f)
            },
        }
    }
}

/// What to do about a position whose shares, in whole lots, are `size`.
pub open spec fn plan_for(
    size: Num,
    avg_price: Num,
    cur_price: Num,
    redeemable: bool,
    tp_pct: Num,
) -> TpPlanView {
    if redeemable {
        TpPlanView::Redeemable
    } else if units(size) <= 0 || units(avg_price) <= 0 {
        TpPlanView::ZeroSize
    } else {
        match target_of(avg_price, tp_pct) {
            None => TpPlanView::Overflow,
            Some(tp_price) => plan_on(
                TpFiguresView { size, avg_price, cur_price, tp_price },
                oproduct(Some(tp_price), Some(size)),
            ),
        }
    }
}

/// What to do about a position. Shares are sold in lots of a hundredth, no more
/// than there are.
pub open spec fn position_plan(position: Position, tp_pct: Num) -> TpPlanView {
    match rounded_down(number_or_zero(position.size@), tick_normal()) {
        None => TpPlanView::Overflow,
        Some(size) => plan_for(
            size,
            number_or_zero(position.avg_price@),
            number_or_zero(position.cur_price@),
            position.redeemable,
            tp_pct,
        ),
    }
}

/// The target for an average price, unless it overflows: the last tick that is not
/// above the raised price and the cap. Where the raised price is above the cap, the
/// target is the cap.
pub fn take_profit_price(avg_price: Decimal, tp_pct: Decimal) -> (r: Option<Decimal>)
    ensures
        decimal_option(r) == target_of(avg_price@, tp_pct@),
        raised(avg_price@, tp_pct@) matches Some(raw) ==> (units(raw) > units(top_target()) ==> (
        r matches Some(d) && units(d@) == units(top_target()))),
        r matches Some(d) ==> {
            let capped = num_min(raised(avg_price@, tp_pct@)->0, top_target());
            is_rounded_down(capped, tick_of(capped), d@)
        },
        raising_adds_up(avg_price@, tp_pct@),
        raised(avg_price@, tp_pct@) is None ==> r is None,
{
    proof {
        use_type_invariant(&avg_price);
        use_type_invariant(&tp_pct);
    }
    let hundred = Decimal::new(100, 0);
    let share = match tp_pct.checked_div(hundred) {
        Some(x) => x,
        None => return None,
    };
    let factor = match Decimal::one().checked_add(share) {
        Some(x) => x,
        None => return None,
    };
    let raw = match avg_price.checked_mul(factor) {
        Some(x) => x,
        None => return None,
    };
    let top = max_tp_price();
    let capped = raw.min(top);
    let tick = tick_size_for(capped);
    let r = checked_round_down(capped, tick);
    proof {
        if units(raw@) > units(top_target()) {
            assert(capped@ == top_target());
            lemma_top_target();
        }
    }
    r
}

/// The cap is itself a whole number of fine ticks.
proof fn lemma_top_target()
    ensures
        tick_of(top_target()) == tick_low(),
        representable(shifted(top_target(), tick_low().scale)),
        forall|r: Num|
            #![trigger is_rounded_down(top_target(), tick_low(), r)]
            is_rounded_down(top_target(), tick_low(), r) ==> units(r) == units(top_target()),
{
    reveal_with_fuel(pow10, 30);
    assert forall|r: Num|
        #![trigger is_rounded_down(top_target(), tick_low(), r)]
        is_rounded_down(top_target(), tick_low(), r) implies units(r) == units(top_target()) by {
        let w = units(tick_low());
        assert(w == 10000000000000000000000000);
        assert(units(top_target()) == 989 * w);
        let x = units(r);
        assert(x == 989 * w) by (nonlinear_arith)
            requires
                x % w == 0,
                x <= 989 * w < x + w,
                w == 10000000000000000000000000,
        ;
    }
}

/// What to do about a position with a target and with what the order would be
/// worth.
pub fn judge_target(f: TpFigures, notional: Option<Decimal>) -> (r: TpPlan)
    ensures
        r@ == plan_on(f@, decimal_option(notional)),
{
    if f.tp_price <= f.avg_price {
        return TpPlan::Unprofitable(f);
    }
    if f.tp_price <= f.cur_price {
        return TpPlan::Reached(f);
    }
    let least = Decimal::one();
    match notional {
        Some(n) => if n < least {
            TpPlan::BelowMinNotional(f)
        } else {
            TpPlan::Post(f)
        },
        None => TpPlan::Overflow,
    }
}

/// What to do about a position whose shares, in whole lots, are `size`.
pub fn plan_figures(
    size: Decimal,
    avg_price: Decimal,
    cur_price: Decimal,
    redeemable: bool,
    tp_pct: Decimal,
) -> (r: TpPlan)
    ensures
        r@ == plan_for(size@, avg_price@, cur_price@, redeemable, tp_pct@),
        figures_of_plan(r@) matches Some(f) ==> {
            &&& f.size == size@
            &&& f.avg_price == avg_price@
            &&& f.cur_price == cur_price@
            &&& raising_adds_up(avg_price@, tp_pct@)
            &&& is_target(avg_price@, tp_pct@, f.tp_price)
        },
{
    if redeemable {
        return TpPlan::Redeemable;
    }
    if !size.is_positive() || !avg_price.is_positive() {
        return TpPlan::ZeroSize;
    }
    let tp_price = match take_profit_price(avg_price, tp_pct) {
        Some(p) => p,
        None => return TpPlan::Overflow,
    };
    judge_target(
        TpFigures { size, avg_price, cur_price, tp_price },
        tp_price.checked_mul(size),
    )
}

/// What to do about a position.
pub fn plan_position(position: &Position, tp_pct: Decimal) -> (r: TpPlan)
    ensures
        r@ == position_plan(*position, tp_pct@),
        figures_of_plan(r@) matches Some(f) ==> {
            let held = number_or_zero(position.size@);
            &&& units(f.size) <= units(held)
            &&& units(held) * 100 < units(f.size) * 100 + one_unit()
            &&& (units(f.size) * 100) % one_unit() == 0
            &&& f.avg_price == number_or_zero(position.avg_price@)
            &&& f.cur_price == number_or_zero(position.cur_price@)
            &&& raising_adds_up(f.avg_price, tp_pct@)
            &&& is_target(f.avg_price, tp_pct@, f.tp_price)
        },
{
    let raw_size = Decimal::parse_or_zero(position.size.as_str());
    let lot = usual_tick();
    if checked_round_down(raw_size, lot).is_none() {
        return TpPlan::Overflow;
    }
    let size = round_down_to_tick(raw_size, lot);
    proof {
        reveal_with_fuel(pow10, 30);
        let (x, w, u) = (units(size@), units(tick_normal()), one_unit());
        assert((x * 100) % u == 0) by (nonlinear_arith)
            requires
                x % w == 0,
                w == 100000000000000000000000000,
                u == 100 * w,
        ;
    }
    let avg_price = Decimal::parse_or_zero(position.avg_price.as_str());
    let cur_price = Decimal::parse_or_zero(position.cur_price.as_str());
    plan_figures(size, avg_price, cur_price, position.redeemable, tp_pct)
}

/// What became of all positions.
#[derive(Debug)]
pub struct TpReport {
    pub total_positions: usize,
    pub skipped_redeemable: usize,
    pub skipped_zero_size: usize,
    pub skipped_tp_already_reached: usize,
    pub skipped_below_min_notional: usize,
    pub skipped_tp_capped_unprofitable: usize,
    pub posted_ok: usize,
    pub posted_failed: usize,
    pub orders: Vec<TpOrderResult>,
}

/// What a [`TpReport`] says.
#[verifier::ext_equal]
pub struct TpReportView {
    pub total_positions: int,
    pub skipped_redeemable: int,
    pub skipped_zero_size: int,
    pub skipped_tp_already_reached: int,
    pub skipped_below_min_notional: int,
    pub skipped_tp_capped_unprofitable: int,
    pub posted_ok: int,
    pub posted_failed: int,
    pub orders: Seq<TpOrderView>,
}

impl View for TpReport {
    type V = TpReportView;

    open spec fn view(&self) -> TpReportView {
        TpReportView {
            total_positions: self.total_positions as int,
            skipped_redeemable: self.skipped_redeemable as int,
            skipped_zero_size: self.skipped_zero_size as int,
            skipped_tp_already_reached: self.skipped_tp_already_reached as int,
            skipped_below_min_notional: self.skipped_below_min_notional as int,
            skipped_tp_capped_unprofitable: self.skipped_tp_capped_unprofitable as int,
            posted_ok: self.posted_ok as int,
            posted_failed: self.posted_failed as int,
            orders: self.orders@.map_values(|o: TpOrderResult| o@),
        }
    }
}

impl TpReportView {
    /// A report on `total` positions before any was looked at.
    pub open spec fn blank(total: int) -> TpReportView {
        TpReportView {
            total_positions: total,
            skipped_redeemable: 0,
            skipped_zero_size: 0,
            skipped_tp_already_reached: 0,
            skipped_below_min_notional: 0,
            skipped_tp_capped_unprofitable: 0,
            posted_ok: 0,
            posted_failed: 0,
            orders: Seq::empty(),
        }
    }

    /// How many positions the report counts.
    pub open spec fn counted(self) -> int {
        self.skipped_redeemable + self.skipped_zero_size + self.skipped_tp_already_reached
            + self.skipped_below_min_notional + self.skipped_tp_capped_unprofitable
            + self.posted_ok + self.posted_failed
    }

    /// The report after a position that is left alone.
    pub open spec fn skipping(self, position: Position, plan: TpPlanView) -> TpReportView {
        match plan {
            TpPlanView::Redeemable => TpReportView {
                skipped_redeemable: self.skipped_redeemable + 1,
                ..self
            },
            TpPlanView::ZeroSize => TpReportView {
                skipped_zero_size: self.skipped_zero_size + 1,
                ..self
            },
            TpPlanView::Unprofitable(f) => TpReportView {
                skipped_tp_capped_unprofitable: self.skipped_tp_capped_unprofitable + 1,
                orders: self.orders.push(
                    order_of(position, f, None, Some("tp_capped_unprofitable"@)),
                ),
                ..self
            },
            TpPlanView::Reached(_) => TpReportView {
                skipped_tp_already_reached: self.skipped_tp_already_reached + 1,
                ..self
            },
            TpPlanView::BelowMinNotional(_) => TpReportView {
                skipped_below_min_notional: self.skipped_below_min_notional + 1,
                ..self
            },
            TpPlanView::Post(_) => self,
            TpPlanView::Overflow => self,
        }
    }

    /// The report after an order that was sent.
    pub open spec fn posting(
        self,
        position: Position,
        f: TpFiguresView,
        outcome: Result<String, String>,
    ) -> TpReportView {
        match outcome {
            Ok(id) => TpReportView {
                posted_ok: self.posted_ok + 1,
                orders: self.orders.push(order_of(position, f, Some(id@), None)),
                ..self
            },
            Err(e) => TpReportView {
                posted_failed: self.posted_failed + 1,
                orders: self.orders.push(order_of(position, f, None, Some(e@))),
                ..self
            },
        }
    }
}

/// The line of a report on a position.
pub open spec fn order_of(
    position: Position,
    f: TpFiguresView,
    order_id: Option<Seq<char>>,
    error: Option<Seq<char>>,
) -> TpOrderView {
    TpOrderView {
        condition_id: position.condition_id@,
        asset_token_id: position.asset_token_id@,
        size: f.size,
        avg_price: f.avg_price,
        cur_price: f.cur_price,
        tp_price: f.tp_price,
        order_id,
        error,
    }
}

fn order_line(
    position: &Position,
    f: &TpFigures,
    order_id: Option<String>,
    error: Option<String>,
) -> (r: TpOrderResult)
    ensures
        r@ == order_of(*position, f@, text_option(order_id), text_option(error)),
{
    TpOrderResult {
        condition_id: position.condition_id.clone(),
        asset_token_id: position.asset_token_id.clone(),
        size: f.size,
        avg_price: f.avg_price,
        cur_price: f.cur_price,
        tp_price: f.tp_price,
        order_id,
        error,
    }
}

impl TpReport {
    /// A report on `total` positions before any was looked at.
    pub fn new(total: usize) -> (r: TpReport)
        ensures
            r@ == TpReportView::blank(total as int),
    {
        let r = TpReport {
            total_positions: total,
            skipped_redeemable: 0,
            skipped_zero_size: 0,
            skipped_tp_already_reached: 0,
            skipped_below_min_notional: 0,
            skipped_tp_capped_unprofitable: 0,
            posted_ok: 0,
            posted_failed: 0,
            orders: Vec::new(),
        };
        assert(r@ =~= TpReportView::blank(total as int));
        r
    }

    /// Notes a position that is left alone.
    pub fn note_skip(&mut self, position: &Position, plan: &TpPlan)
        requires
            old(self)@.counted() < old(self)@.total_positions,
        ensures
            final(self)@ == old(self)@.skipping(*position, plan@),
    {
        match plan {
            TpPlan::Redeemable => {
                self.skipped_redeemable += 1;
            },
            TpPlan::ZeroSize => {
                self.skipped_zero_size += 1;
            },
            TpPlan::Unprofitable(f) => {
                self.skipped_tp_capped_unprofitable += 1;
                let line = order_line(
                    position,
                    f,
                    None,
                    Some("tp_capped_unprofitable".to_string()),
                );
                self.orders.push(line);
                assert(self@.orders =~= old(self)@.orders.push(line@));
            },
            TpPlan::Reached(_) => {
                self.skipped_tp_already_reached += 1;
            },
            TpPlan::BelowMinNotional(_) => {
                self.skipped_below_min_notional += 1;
            },
            TpPlan::Post(_) => {},
            TpPlan::Overflow => {},
        }
    }

    /// Notes an order that was sent: its id, or why it failed.
    pub fn note_post(
        &mut self,
        position: &Position,
        figures: &TpFigures,
        outcome: Result<String, String>,
    )
        requires
            old(self)@.counted() < old(self)@.total_positions,
        ensures
            final(self)@ == old(self)@.posting(*position, figures@, outcome),
    {
        match outcome {
            Ok(id) => {
                self.posted_ok += 1;
                let line = order_line(position, figures, Some(id), None);
                self.orders.push(line);
                assert(self@.orders =~= old(self)@.orders.push(line@));
            },
            Err(e) => {
                self.posted_failed += 1;
                let line = order_line(position, figures, None, Some(e));
                self.orders.push(line);
                assert(self@.orders =~= old(self)@.orders.push(line@));
            },
        }
    }
}

/// Law: every position is counted once, unless a figure overflows.
pub proof fn every_position_is_counted_once(
    report: TpReportView,
    position: Position,
    tp_pct: Num,
    outcome: Result<String, String>,
)
    ensures
        position_plan(position, tp_pct) !is Overflow ==> {
            let after = match position_plan(position, tp_pct) {
                TpPlanView::Post(f) => report.posting(position, f, outcome),
                plan => report.skipping(position, plan),
            };
            after.counted() == report.counted() + 1 && after.total_positions
                == report.total_positions
        },
{
}

/// Law: an order goes out only for a position that has not resolved, with shares
/// to sell, at a target above both the average and the current price.
pub proof fn posted_orders_take_profit(
    size: Num,
    avg_price: Num,
    cur_price: Num,
    redeemable: bool,
    tp_pct: Num,
)
    ensures
        plan_for(size, avg_price, cur_price, redeemable, tp_pct) matches TpPlanView::Post(f) ==> {
            &&& !redeemable
            &&& units(f.size) > 0
            &&& units(f.tp_price) > units(avg_price)
            &&& units(f.tp_price) > units(cur_price)
            &&& target_of(avg_price, tp_pct) == Some(f.tp_price)
        },
{
}

/// Law: raising a price by a percentage multiplies it by a hundred and the percentage
/// over a hundred. This is exact wherever the percentage has at most 26 decimals and
/// the raised price can be written down.
pub proof fn raised_price_is_the_price_and_the_percentage(avg_price: Num, tp_pct: Num, exact: Num)
    requires
        raising_adds_up(avg_price, tp_pct),
        tp_pct.scale <= 26,
        -max_mant() <= 100 * pow10(tp_pct.scale) + tp_pct.mant <= max_mant(),
        representable(exact),
        units(exact) * (100 * one_unit()) == units(avg_price) * (100 * one_unit() + units(tp_pct)),
    ensures
        raised(avg_price, tp_pct) matches Some(raw) && units(raw) * (100 * one_unit()) == units(
            avg_price,
        ) * (100 * one_unit() + units(tp_pct)),
{
    let (s, m, u) = (tp_pct.scale, tp_pct.mant, one_unit());
    lemma_pow10_28();
    lemma_units_whole(1);
    lemma_units_whole(100);
    lemma_units_sign(whole_num(100));
    let (p, q) = (pow10(26 - s), pow10(s));
    lemma_pow10_adds(s, 26 - s);
    assert(pow10(28 - s) == 10 * pow10(27 - s) && pow10(27 - s) == 10 * p);
    assert(pow10(28) == 10 * pow10(27) && pow10(27) == 10 * pow10(26));
    let share = decimal_quotient(tp_pct, whole_num(100));
    let n = Num { mant: m, scale: s + 2 };
    assert(units(n) == m * p);
    assert(m * (100 * p) == 100 * (m * p)) by (nonlinear_arith);
    assert(units(tp_pct) == 100 * units(n));
    assert(units(n) * (100 * u) == units(tp_pct) * u) by (nonlinear_arith)
        requires
            units(tp_pct) == 100 * units(n),
    ;
    assert(whole(100) == 100 * u);
    what_fits_is_exact(units(tp_pct), 100 * u, n, share);
    let factor = decimal_sum(whole_num(1), share->0);
    let f = Num { mant: 100 * q + m, scale: s + 2 };
    assert((100 * q + m) * p == 100 * (q * p) + m * p) by (nonlinear_arith);
    assert(units(f) == u + units(n));
    what_fits_is_exact(units(whole_num(1)) + units(share->0), u, f, factor);
    let g = units(factor->0);
    assert(g * 100 == 100 * u + units(tp_pct));
    let (a, e) = (units(avg_price), units(exact));
    assert(e * (u * u) == a * g * u) by (nonlinear_arith)
        requires
            e * (100 * u) == a * (100 * u + units(tp_pct)),
            g * 100 == 100 * u + units(tp_pct),
    {
        assert(a * (g * 100) == a * g * 100);
        assert(e * u == a * g);
    }
    let d = u * u;
    assert(d >= 1) by (nonlinear_arith)
        requires
            d == u * u,
            u >= 1,
    ;
    what_fits_is_exact(a * g, d, exact, decimal_product(avg_price, factor->0));
}

/// Law: a larger percentage never gives a lower raised price, rounded or not, nor a
/// lower target; and where it raises the price by a cent or more and not above the cap,
/// the target is higher.
pub proof fn larger_percentages_raise_more(
    avg_price: Num,
    smaller: Num,
    larger: Num,
    first: Num,
    second: Num,
)
    requires
        units(avg_price) >= 0,
        units(smaller) <= units(larger),
        raising_adds_up(avg_price, smaller),
        raising_adds_up(avg_price, larger),
        is_target(avg_price, smaller, first),
        is_target(avg_price, larger, second),
    ensures
        ({
            let (low, high) = (
                units(raised(avg_price, smaller)->0),
                units(raised(avg_price, larger)->0),
            );
            &&& low <= high
            &&& units(first) <= units(second)
            &&& 100 * (high - low) >= one_unit() && 1000 * high <= 989 * one_unit() ==> units(first)
                < units(second)
        }),
{
    let u = one_unit();
    lemma_units_whole(1);
    lemma_units_whole(100);
    lemma_units_sign(whole_num(100));
    assert(whole(100) == 100 * u);
    let (s, t) = (
        decimal_quotient(smaller, whole_num(100))->0,
        decimal_quotient(larger, whole_num(100))->0,
    );
    rounding_keeps_the_order(units(smaller), units(larger), 100 * u, s, t);
    let (f, g) = (decimal_sum(whole_num(1), s)->0, decimal_sum(whole_num(1), t)->0);
    rounding_keeps_the_order(
        units(whole_num(1)) + units(s),
        units(whole_num(1)) + units(t),
        u,
        f,
        g,
    );
    let (a, low, high) = (
        units(avg_price),
        raised(avg_price, smaller)->0,
        raised(avg_price, larger)->0,
    );
    assert(a * units(f) <= a * units(g)) by (nonlinear_arith)
        requires
            a >= 0,
            units(f) <= units(g),
    ;
    let d = u * u;
    assert(d >= 1) by (nonlinear_arith)
        requires
            d == u * u,
            u >= 1,
    ;
    rounding_keeps_the_order(a * units(f), a * units(g), d, low, high);
    reveal_with_fuel(pow10, 30);
    let (x, y) = (num_min(low, top_target()), num_min(high, top_target()));
    lemma_ticks_keep_the_order(x, y, first, second);
}

proof fn lemma_ticks_keep_the_order(x: Num, y: Num, first: Num, second: Num)
    requires
        units(x) <= units(y),
        is_rounded_down(x, tick_of(x), first),
        is_rounded_down(y, tick_of(y), second),
    ensures
        units(first) <= units(second),
        100 * (units(y) - units(x)) >= one_unit() ==> units(first) < units(second),
{
    reveal_with_fuel(pow10, 30);
    let fine = 10000000000000000000000000int;
    let usual = 100000000000000000000000000int;
    assert(units(tick_low()) == fine && units(tick_normal()) == usual);
    let (a, b) = (units(first), units(second));
    let (v, w) = (units(tick_of(x)), units(tick_of(y)));
    // A whole number of usual ticks is one of fine ticks too.
    assert(a % fine == 0 && b % fine == 0) by (nonlinear_arith)
        requires
            fine == 10000000000000000000000000,
            usual == 10 * fine,
            v == fine || v == usual,
            w == fine || w == usual,
            a % v == 0,
            b % w == 0,
    ;
    if a > b {
        if v == w {
            assert(a >= b + w) by (nonlinear_arith)
                requires
                    a % w == 0,
                    b % w == 0,
                    a > b,
                    w >= 1,
            ;
        } else if w == usual {
            // The lower price is below ten cents and the higher one is not.
            assert(b >= 10 * usual) by (nonlinear_arith)
                requires
                    b % usual == 0,
                    b + usual > 10 * usual,
                    usual == 100000000000000000000000000,
            ;
        } else {
            // The higher price is above ninety cents and the lower one is not.
            assert(b >= 900 * fine) by (nonlinear_arith)
                requires
                    b % fine == 0,
                    b + fine > 900 * fine,
                    fine == 10000000000000000000000000,
            ;
        }
    }
}

/// Law: the target is a whole number of ticks, not above the raised price and not above
/// 0.989, and no further below them than a tick. A tick is a tenth of a cent below ten
/// cents and above ninety, and a cent between.
pub proof fn target_is_the_last_tick(avg_price: Num, tp_pct: Num, target: Num)
    requires
        is_target(avg_price, tp_pct, target),
    ensures
        raised(avg_price, tp_pct) matches Some(raw) && {
            let (t, u) = (units(target), one_unit());
            let limit = if 1000 * units(raw) > 989 * u {
                989 * u / 1000
            } else {
                units(raw)
            };
            let tick = if 10 * limit < u || 10 * limit > 9 * u {
                u / 1000
            } else {
                u / 100
            };
            &&& t <= limit
            &&& limit < t + tick
            &&& t % tick == 0
        },
{
    reveal_with_fuel(pow10, 30);
    let u = one_unit();
    assert(units(top_target()) == 9890000000000000000000000000);
    assert(989 * u / 1000 == 9890000000000000000000000000);
    assert(units(tick_low()) == 10000000000000000000000000 && u / 1000
        == 10000000000000000000000000);
    assert(units(tick_normal()) == 100000000000000000000000000 && u / 100
        == 100000000000000000000000000);
    assert(units(Num { mant: 10, scale: 2 }) == 1000000000000000000000000000);
    assert(units(Num { mant: 90, scale: 2 }) == 9000000000000000000000000000);
}

/// Law: what is planned for a position. One that is redeemable, has nothing to sell or
/// cost nothing is left alone; then one whose target is not above its average price,
/// one whose current price has reached the target, and one whose order would be worth
/// less than a dollar; and on any other an order goes out for all its shares.
pub proof fn plans_follow_from_the_figures(
    size: Num,
    avg_price: Num,
    cur_price: Num,
    redeemable: bool,
    tp_pct: Num,
)
    ensures
        ({
            let plan = plan_for(size, avg_price, cur_price, redeemable, tp_pct);
            let t = target_of(avg_price, tp_pct)->0;
            let worth = decimal_product(t, size);
            let f = TpFiguresView { size, avg_price, cur_price, tp_price: t };
            &&& redeemable <==> plan is Redeemable
            &&& !redeemable && (size.mant <= 0 || avg_price.mant <= 0) <==> plan is ZeroSize
            &&& !redeemable && size.mant > 0 && avg_price.mant > 0 ==> {
                &&& target_of(avg_price, tp_pct) is None ==> plan is Overflow
                &&& target_of(avg_price, tp_pct) is Some ==> {
                    &&& units(t) <= units(avg_price) <==> plan == TpPlanView::Unprofitable(f)
                    &&& units(t) > units(avg_price) && units(t) <= units(cur_price) <==> plan
                        == TpPlanView::Reached(f)
                    &&& units(t) > units(avg_price) && units(t) > units(cur_price) ==> {
                        &&& worth is None ==> plan is Overflow
                        &&& worth is Some && units(worth->0) < one_unit() ==> plan
                            == TpPlanView::BelowMinNotional(f)
                        &&& worth is Some && units(worth->0) >= one_unit() ==> plan
                            == TpPlanView::Post(f)
                    }
                }
            }
        }),
{
    lemma_units_whole(1);
    lemma_units_sign(size);
    lemma_units_sign(avg_price);
}

/// Law: a position is judged by the numbers that its texts write, one that cannot be
/// read counting as zero.
pub proof fn positions_are_judged_by_their_texts(position: Position, tp_pct: Num)
    ensures
        ({
            let read = |text: Seq<char>|
                match decimal_text(text) {
                    Some(n) => n,
                    None => Num { mant: 0, scale: 0 },
                };
            let size = rounded_down(read(position.size@), Num { mant: 1, scale: 2 });
            &&& size is None ==> position_plan(position, tp_pct) is Overflow
            &&& size is Some ==> position_plan(position, tp_pct) == plan_for(
                size->0,
                read(position.avg_price@),
                read(position.cur_price@),
                position.redeemable,
                tp_pct,
            )
        }),
{
}

/// Law: a position that is left alone adds one to the counter of its reason and to no
/// other, and an order that was sent adds one to the sent or to the failed ones. A line
/// is written for every order that was sent and for a target that is not above the
/// average price, with the figures of the position, at the end of the list.
pub proof fn reports_count_what_happened(
    report: TpReportView,
    position: Position,
    f: TpFiguresView,
    plan: TpPlanView,
    outcome: Result<String, String>,
)
    ensures
        ({
            let after = report.skipping(position, plan);
            &&& after.total_positions == report.total_positions
            &&& after.posted_ok == report.posted_ok
            &&& after.posted_failed == report.posted_failed
            &&& after.skipped_redeemable - report.skipped_redeemable == (if plan is Redeemable {
                1int
            } else {
                0
            })
            &&& after.skipped_zero_size - report.skipped_zero_size == (if plan is ZeroSize {
                1int
            } else {
                0
            })
            &&& after.skipped_tp_already_reached - report.skipped_tp_already_reached == (
            if plan is Reached {
                1int
            } else {
                0
            })
            &&& after.skipped_below_min_notional - report.skipped_below_min_notional == (
            if plan is BelowMinNotional {
                1int
            } else {
                0
            })
            &&& after.skipped_tp_capped_unprofitable - report.skipped_tp_capped_unprofitable == (
            if plan is Unprofitable {
                1int
            } else {
                0
            })
            &&& plan !is Unprofitable ==> after.orders == report.orders
            &&& plan matches TpPlanView::Unprofitable(g) ==> {
                let line = after.orders.last();
                &&& after.orders.len() == report.orders.len() + 1
                &&& after.orders.drop_last() == report.orders
                &&& line.condition_id == position.condition_id@
                &&& line.asset_token_id == position.asset_token_id@
                &&& line.size == g.size
                &&& line.avg_price == g.avg_price
                &&& line.cur_price == g.cur_price
                &&& line.tp_price == g.tp_price
                &&& line.order_id is None
                &&& line.error == Some("tp_capped_unprofitable"@)
            }
        }),
        ({
            let after = report.posting(position, f, outcome);
            let line = after.orders.last();
            &&& after.total_positions == report.total_positions
            &&& after.skipped_redeemable == report.skipped_redeemable
            &&& after.skipped_zero_size == report.skipped_zero_size
            &&& after.skipped_tp_already_reached == report.skipped_tp_already_reached
            &&& after.skipped_below_min_notional == report.skipped_below_min_notional
            &&& after.skipped_tp_capped_unprofitable == report.skipped_tp_capped_unprofitable
            &&& after.posted_ok - report.posted_ok == (if outcome is Ok {
                1int
            } else {
                0
            })
            &&& after.posted_failed - report.posted_failed == (if outcome is Err {
                1int
            } else {
                0
            })
            &&& after.orders.len() == report.orders.len() + 1
            &&& after.orders.drop_last() == report.orders
            &&& line.condition_id == position.condition_id@
            &&& line.asset_token_id == position.asset_token_id@
            &&& line.size == f.size
            &&& line.avg_price == f.avg_price
            &&& line.cur_price == f.cur_price
            &&& line.tp_price == f.tp_price
            &&& match outcome {
                Ok(id) => line.order_id == Some(id@) && line.error is None,
                Err(e) => line.order_id is None && line.error == Some(e@),
            }
        }),
{
    let after = report.posting(position, f, outcome);
    assert(after.orders.drop_last() =~= report.orders);
    if plan is Unprofitable {
        assert(report.skipping(position, plan).orders.drop_last() =~= report.orders);
    }
}

/// Law: a price is raised by one and the percentage over a hundred, whatever the
/// percentage.
pub proof fn prices_are_raised_by_their_percentage(avg_price: Num, tp_pct: Num)
    ensures
        ({
            let share = decimal_quotient(tp_pct, Num { mant: 100, scale: 0 });
            let factor = decimal_sum(Num { mant: 1, scale: 0 }, share->0);
            &&& share is Some && factor is Some ==> raised(avg_price, tp_pct) == decimal_product(
                avg_price,
                factor->0,
            )
            &&& share is None || factor is None ==> raised(avg_price, tp_pct) is None
        }),
{
}

/// Law: a tick is a tenth of a cent below ten cents and above ninety, and a cent from ten
/// to ninety.
pub proof fn ticks_go_by_the_price(price: Num)
    ensures
        ({
            let fine = 10 * units(price) < one_unit() || 10 * units(price) > 9 * one_unit();
            &&& fine ==> 1000 * units(tick_of(price)) == one_unit()
            &&& !fine ==> 100 * units(tick_of(price)) == one_unit()
            &&& is_tick(tick_of(price))
        }),
{
    lemma_tick_units();
}

/// The ticks and the prices between which they change, by their values.
proof fn lemma_tick_units()
    ensures
        1000 * units(tick_low()) == one_unit(),
        100 * units(tick_normal()) == one_unit(),
        10 * units(Num { mant: 10, scale: 2 }) == one_unit(),
        10 * units(Num { mant: 90, scale: 2 }) == 9 * one_unit(),
{
    lemma_pow10_28();
    let (low, normal) = (tick_low(), tick_normal());
    let (ten, ninety) = (Num { mant: 10, scale: 2 }, Num { mant: 90, scale: 2 });
    assert(pow10(28) == 10 * pow10(27));
    assert(pow10(27) == 10 * pow10(26));
    assert(pow10(26) == 10 * pow10(25));
    assert(units(low) == 1 * pow10(25));
    assert(units(normal) == 1 * pow10(26));
    assert(units(ten) == 10 * pow10(26));
    assert(units(ninety) == 90 * pow10(26));
}

/// Law: rounding down takes as many ticks as there are whole ones in the price; without a
/// tick the price stays.
pub proof fn rounding_down_takes_whole_ticks(price: Num, tick: Num)
    ensures
        tick.mant == 0 ==> rounded_down(price, tick) == Some(price),
        tick.mant != 0 ==> match decimal_quotient(price, tick) {
            Some(q) => rounded_down(price, tick) == decimal_product(num_floor(q), tick),
            None => rounded_down(price, tick) is None,
        },
{
}

} // verus!
