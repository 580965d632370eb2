//! Strategy B: both outcomes of one market, with filters.
//!
//! Beyond the plain bilateral arbitrage it stays out of negative-risk markets,
//! of those about to resolve, of offers too small to matter, and of edges too
//! good to be true.

use crate::bilateral::{edge_after_costs, edge_is_exact, market_books, net_edge};
use crate::book_state::{BookState, BookView};
use crate::decimal::{
    Checked, Decimal, Num, decimal_product, decimal_sum, num_min, one_unit, oproduct, pow10, units,
};
use crate::fees::{fee_per_share, inside_unit};
use crate::market_index::{IndexView, MarketIndex, text_map};
use crate::strategies::{
    Decision, DecisionKind, DecisionView, blank_decision, decision_option, skip_reasons,
};
use crate::string_map::StringMap;
use crate::timestamp::{Timestamp, in_range, seconds_between};
use crate::types::{Market, MarketView};
use vstd::prelude::*;

verus! {

/// What an offer has to be like.
#[derive(Debug, Clone, Copy)]
pub struct BilateralPureConfig {
    pub fee_rate_bps: u32,
    pub min_edge_per_unit: Decimal,
    /// Edges above this are taken for phantoms.
    pub max_edge_per_unit: Decimal,
    pub slippage_buffer_bps: u32,
    pub max_shares: Decimal,
    pub min_ttr_seconds: i64,
    pub min_liquidity_usdc: Decimal,
}

/// What a [`BilateralPureConfig`] says.
pub struct PureView {
    pub fee_rate_bps: int,
    pub min_edge_per_unit: Num,
    pub max_edge_per_unit: Num,
    pub slippage_buffer_bps: int,
    pub max_shares: Num,
    pub min_ttr_seconds: int,
    pub min_liquidity_usdc: Num,
}

impl View for BilateralPureConfig {
    type V = PureView;

    open spec fn view(&self) -> PureView {
        PureView {
            fee_rate_bps: self.fee_rate_bps as int,
            min_edge_per_unit: self.min_edge_per_unit@,
            max_edge_per_unit: self.max_edge_per_unit@,
            slippage_buffer_bps: self.slippage_buffer_bps as int,
            max_shares: self.max_shares@,
            min_ttr_seconds: self.min_ttr_seconds as int,
            min_liquidity_usdc: self.min_liquidity_usdc@,
        }
    }
}

/// `price` is strictly between one and ninety-nine cents.
pub open spec fn tradable_price(price: Num) -> bool {
    units(Num { mant: 1, scale: 2 }) < units(price) < units(Num { mant: 99, scale: 2 })
}

/// The decision on two lowest asks, once nothing about the market itself speaks
/// against it; nothing where a figure overflows.
pub open spec fn pure_on_asks(
    base: DecisionView,
    ask_a: Option<(Num, Num)>,
    ask_b: Option<(Num, Num)>,
    cfg: PureView,
) -> Option<DecisionView> {
    match (ask_a, ask_b) {
        (Some(a), Some(b)) => match decimal_sum(a.0, b.0) {
            None => None,
            Some(sum_ask) => pure_on_levels(base.at_asks(a, b, sum_ask), a, b, sum_ask, cfg),
        },
        _ => Some(base.because(skip_reasons::LIQUIDITY_TOO_LOW@)),
    }
}

/// The decision on two levels whose prices were noted.
pub open spec fn pure_on_levels(
    base: DecisionView,
    a: (Num, Num),
    b: (Num, Num),
    sum_ask: Num,
    cfg: PureView,
) -> Option<DecisionView> {
    if !tradable_price(a.0) || !tradable_price(b.0) {
        Some(base.because(skip_reasons::PRICE_OUT_OF_RANGE@))
    } else {
        match (oproduct(Some(a.0), Some(a.1)), oproduct(Some(b.0), Some(b.1))) {
            (Some(x), Some(y)) => {
                if units(num_min(x, y)) < units(cfg.min_liquidity_usdc) {
                    Some(base.because(skip_reasons::LIQUIDITY_TOO_LOW@))
                } else {
                    match net_edge(a.0, b.0, cfg.fee_rate_bps, cfg.slippage_buffer_bps) {
                        None => None,
                        Some(edge) => pure_on_edge(
                            DecisionView { edge_per_unit: edge, ..base },
                            edge,
                            a.1,
                            b.1,
                            sum_ask,
                            cfg,
                        ),
                    }
                }
            },
            _ => None,
        }
    }
}

/// The shares to buy on an edge between the bounds, the smallest of the two sizes
/// and of the cap; or the reason to buy none.
pub open spec fn edge_verdict(edge: Num, size_a: Num, size_b: Num, cfg: PureView) -> Result<
    Num,
    Seq<char>,
> {
    let shares = num_min(num_min(size_a, size_b), cfg.max_shares);
    if units(edge) < units(cfg.min_edge_per_unit) {
        Err(skip_reasons::NO_EDGE@)
    } else if units(edge) > units(cfg.max_edge_per_unit) {
        Err(skip_reasons::EDGE_TOO_HIGH@)
    } else if units(shares) <= 0 {
        Err(skip_reasons::LIQUIDITY_TOO_LOW@)
    } else {
        Ok(shares)
    }
}

/// The decision on an edge that was noted.
pub open spec fn pure_on_edge(
    base: DecisionView,
    edge: Num,
    size_a: Num,
    size_b: Num,
    sum_ask: Num,
    cfg: PureView,
) -> Option<DecisionView> {
    match edge_verdict(edge, size_a, size_b, cfg) {
        Err(reason) => Some(base.because(reason)),
        Ok(shares) => match (
            oproduct(Some(sum_ask), Some(shares)),
            oproduct(Some(edge), Some(shares)),
        ) {
            (Some(size), Some(pnl)) => Some(base.entering("BOTH"@, size, pnl)),
            _ => None,
        },
    }
}

/// The market resolves too soon.
pub open spec fn resolves_too_soon(ttr: Option<int>, cfg: PureView) -> bool {
    match ttr {
        Some(t) => t < cfg.min_ttr_seconds,
        None => false,
    }
}

/// The decision of the strategy at `now`; nothing where a figure overflows.
pub open spec fn pure_decision(
    market: MarketView,
    book_a: BookView,
    book_b: BookView,
    cfg: PureView,
    now: int,
) -> Option<DecisionView> {
    let base = blank_decision("B"@, market, now);
    if market.neg_risk {
        Some(base.because(skip_reasons::NEG_RISK@))
    } else if resolves_too_soon(base.ttr_seconds, cfg) {
        Some(base.because(skip_reasons::TTR_TOO_LOW@))
    } else {
        pure_on_asks(base, book_a.ask(), book_b.ask(), cfg)
    }
}

/// The decision can be taken without overflow, whatever the time.
pub open spec fn pure_defined(
    market: MarketView,
    book_a: BookView,
    book_b: BookView,
    cfg: PureView,
) -> bool {
    market.neg_risk || pure_on_asks(
        blank_decision("B"@, market, 0),
        book_a.ask(),
        book_b.ask(),
        cfg,
    ) is Some
}

/// Where the decision can be taken at one time, it can be at any.
pub proof fn pure_defined_at_any_time(
    market: MarketView,
    book_a: BookView,
    book_b: BookView,
    cfg: PureView,
    now: int,
)
    requires
        pure_defined(market, book_a, book_b, cfg),
    ensures
        pure_decision(market, book_a, book_b, cfg, now) is Some,
{
}

/// A decision to enter has an exact edge, between the bounds of `cfg`.
pub open spec fn pure_entry_is_sound(d: DecisionView, cfg: PureView) -> bool {
    d.decision == DecisionKind::Enter ==> {
        &&& edge_is_exact(
            d.price_yes,
            d.price_no,
            cfg.fee_rate_bps,
            cfg.slippage_buffer_bps,
            d.edge_per_unit,
        )
        &&& units(cfg.min_edge_per_unit) <= units(d.edge_per_unit) <= units(cfg.max_edge_per_unit)
        &&& tradable_price(d.price_yes)
        &&& tradable_price(d.price_no)
    }
}

/// The shares to buy on an edge, or the reason to buy none.
pub fn judge_edge(edge: Decimal, size_a: Decimal, size_b: Decimal, cfg: &BilateralPureConfig) -> (r:
    Result<Decimal, &'static str>)
    ensures
        match r {
            Ok(shares) => edge_verdict(edge@, size_a@, size_b@, cfg@) == Ok::<Num, Seq<char>>(
                shares@,
            ),
            Err(reason) => edge_verdict(edge@, size_a@, size_b@, cfg@) == Err::<Num, Seq<char>>(
                reason@,
            ),
        },
{
    if edge < cfg.min_edge_per_unit {
        return Err(skip_reasons::NO_EDGE);
    }
    if edge > cfg.max_edge_per_unit {
        return Err(skip_reasons::EDGE_TOO_HIGH);
    }
    let shares = size_a.min(size_b).min(cfg.max_shares);
    if shares.is_positive() {
        Ok(shares)
    } else {
        Err(skip_reasons::LIQUIDITY_TOO_LOW)
    }
}

/// Takes the decision on two books, once nothing about the market itself speaks
/// against it.
fn decide_on_books(
    base: Decision,
    book_a: &BookState,
    book_b: &BookState,
    cfg: &BilateralPureConfig,
) -> (r: Option<Decision>)
    requires
        base@.decision == DecisionKind::Skip,
    ensures
        decision_option(r) == pure_on_asks(base@, book_a@.ask(), book_b@.ask(), cfg@),
        r matches Some(d) ==> pure_entry_is_sound(d@, cfg@),
{
    let a = match book_a.best_ask() {
        Some(l) => l,
        None => return Some(base.skipped(skip_reasons::LIQUIDITY_TOO_LOW)),
    };
    let b = match book_b.best_ask() {
        Some(l) => l,
        None => return Some(base.skipped(skip_reasons::LIQUIDITY_TOO_LOW)),
    };
    let sum_ask = match a.0.checked_add(b.0) {
        Some(s) => s,
        None => return None,
    };
    let mut base = base.noting_asks(a, b, sum_ask);
    let low = Decimal::new(1, 2);
    let high = Decimal::new(99, 2);
    if a.0 <= low || b.0 <= low || a.0 >= high || b.0 >= high {
        return Some(base.skipped(skip_reasons::PRICE_OUT_OF_RANGE));
    }
    proof {
        lemma_tradable_inside_unit(a.0@);
        lemma_tradable_inside_unit(b.0@);
    }
    let available = match (a.0.checked_mul(a.1), b.0.checked_mul(b.1)) {
        (Some(x), Some(y)) => x.min(y),
        _ => return None,
    };
    if available < cfg.min_liquidity_usdc {
        return Some(base.skipped(skip_reasons::LIQUIDITY_TOO_LOW));
    }
    let edge = edge_after_costs(a.0, b.0, cfg.fee_rate_bps, cfg.slippage_buffer_bps);
    base.edge_per_unit = edge;
    let shares = match judge_edge(edge, a.1, b.1, cfg) {
        Ok(x) => x,
        Err(reason) => return Some(base.skipped(reason)),
    };
    match (sum_ask.checked_mul(shares), edge.checked_mul(shares)) {
        (Some(size), Some(pnl)) => Some(base.entered("BOTH", size, pnl)),
        _ => None,
    }
}

proof fn lemma_tradable_inside_unit(price: Num)
    requires
        tradable_price(price),
    ensures
        inside_unit(price),
{
    reveal_with_fuel(pow10, 30);
}

/// Whether the decision can be taken without overflow, whatever the time.
pub fn is_pure_defined(
    market: &Market,
    book_a: &BookState,
    book_b: &BookState,
    cfg: &BilateralPureConfig,
) -> (r: bool)
    ensures
        r == pure_defined(market@, book_a@, book_b@, cfg@),
{
    if market.neg_risk {
        return true;
    }
    let base = Decision::blank("B", market, Timestamp::epoch());
    decide_on_books(base, book_a, book_b, cfg).is_some()
}

/// The decision of the strategy at `now`, unless a figure in it overflows.
pub fn checked_evaluate_at(
    market: &Market,
    book_a: &BookState,
    book_b: &BookState,
    cfg: &BilateralPureConfig,
    now: Timestamp,
) -> (r: Option<Decision>)
    ensures
        decision_option(r) == pure_decision(market@, book_a@, book_b@, cfg@, now@),
        r matches Some(d) ==> d@.timestamp == now@ && pure_entry_is_sound(d@, cfg@),
{
    proof {
        lemma_timestamp(market@, book_a@, book_b@, cfg@, now@);
    }
    let base = Decision::blank("B", market, now);
    if market.neg_risk {
        return Some(base.skipped(skip_reasons::NEG_RISK));
    }
    if let Some(ttr) = base.ttr_seconds {
        if ttr < cfg.min_ttr_seconds {
            return Some(base.skipped(skip_reasons::TTR_TOO_LOW));
        }
    }
    decide_on_books(base, book_a, book_b, cfg)
}

/// The decision of the strategy at `now`.
pub fn evaluate_at(
    market: &Market,
    book_a: &BookState,
    book_b: &BookState,
    cfg: &BilateralPureConfig,
    now: Timestamp,
) -> (r: Decision)
    requires
        pure_decision(market@, book_a@, book_b@, cfg@, now@) is Some,
    ensures
        pure_decision(market@, book_a@, book_b@, cfg@, now@) == Some(r@),
        r@.timestamp == now@,
        pure_entry_is_sound(r@, cfg@),
{
    checked_evaluate_at(market, book_a, book_b, cfg, now).unwrap()
}

/// The decision of the strategy now.
pub fn evaluate(
    market: &Market,
    book_a: &BookState,
    book_b: &BookState,
    cfg: &BilateralPureConfig,
) -> (r: Decision)
    requires
        pure_defined(market@, book_a@, book_b@, cfg@),
    ensures
        pure_decision(market@, book_a@, book_b@, cfg@, r@.timestamp) == Some(r@),
        pure_entry_is_sound(r@, cfg@),
{
    let now = Timestamp::now();
    proof {
        pure_defined_at_any_time(market@, book_a@, book_b@, cfg@, now@);
    }
    evaluate_at(market, book_a, book_b, cfg, now)
}

proof fn lemma_timestamp(
    market: MarketView,
    book_a: BookView,
    book_b: BookView,
    cfg: PureView,
    now: int,
)
    ensures
        pure_decision(market, book_a, book_b, cfg, now) matches Some(d) ==> d.timestamp == now,
{
}

/// Law: what the strategy enters with a positive minimum edge is no loss. A share
/// of each outcome at the asks, with the fees on both, costs less than the dollar
/// that one of them pays, by at least that minimum.
pub proof fn entry_costs_less_than_it_pays(d: DecisionView, cfg: PureView)
    requires
        d.decision == DecisionKind::Enter,
        pure_entry_is_sound(d, cfg),
        units(cfg.min_edge_per_unit) > 0,
    ensures
        units(d.price_yes) + units(d.price_no) + units(
            fee_per_share(d.price_yes, cfg.fee_rate_bps)->0,
        ) + units(fee_per_share(d.price_no, cfg.fee_rate_bps)->0) + units(cfg.min_edge_per_unit)
            <= one_unit(),
        units(d.price_yes) + units(d.price_no) < one_unit(),
{
}

/// Law: the strategy enters only what passes every filter. The market has no
/// negative risk and does not resolve too soon, both prices are tradable, enough is
/// on offer at each, and the edge lies between its bounds.
pub proof fn entry_passes_every_filter(
    market: MarketView,
    book_a: BookView,
    book_b: BookView,
    cfg: PureView,
    now: int,
)
    ensures
        pure_decision(market, book_a, book_b, cfg, now) matches Some(d) ==> (d.decision
            == DecisionKind::Enter ==> {
            &&& !market.neg_risk
            &&& !resolves_too_soon(d.ttr_seconds, cfg)
            &&& tradable_price(d.price_yes)
            &&& tradable_price(d.price_no)
            &&& d.size_yes_available == (book_a.ask()->0).1
            &&& d.size_no_available == (book_b.ask()->0).1
            &&& offers_at_least(cfg.min_liquidity_usdc, d.price_yes, d.size_yes_available)
            &&& offers_at_least(cfg.min_liquidity_usdc, d.price_no, d.size_no_available)
            &&& units(cfg.min_edge_per_unit) <= units(d.edge_per_unit) <= units(
                cfg.max_edge_per_unit,
            )
        }),
{
}

/// What is on offer at a price is worth `least` or more.
pub open spec fn offers_at_least(least: Num, price: Num, size: Num) -> bool {
    oproduct(Some(price), Some(size)) matches Some(n) && units(n) >= units(least)
}

/// Law: every decision to skip gives a reason, and no decision to enter does.
pub proof fn skips_have_reasons(
    market: MarketView,
    book_a: BookView,
    book_b: BookView,
    cfg: PureView,
    now: int,
)
    ensures
        pure_decision(market, book_a, book_b, cfg, now) matches Some(d) ==> (d.decision
            == DecisionKind::Skip <==> d.skip_reason is Some),
{
}

/// Law: the strategy enters just where the market has no negative risk, does not
/// resolve sooner than it may, both books have a lowest ask strictly between one and
/// ninety-nine cents, what is offered at each is worth the minimum, the net edge lies
/// between its bounds, and both sizes and the cap are positive.
pub proof fn enters_just_where_every_filter_passes(
    market: MarketView,
    book_a: BookView,
    book_b: BookView,
    cfg: PureView,
    now: int,
)
    ensures
        pure_decision(market, book_a, book_b, cfg, now) matches Some(d) ==> {
            let (a, b) = (book_a.ask()->0, book_b.ask()->0);
            let edge = net_edge(a.0, b.0, cfg.fee_rate_bps, cfg.slippage_buffer_bps);
            let (x, y) = (decimal_product(a.0, a.1), decimal_product(b.0, b.1));
            d.decision == DecisionKind::Enter <==> {
                &&& !market.neg_risk
                &&& market.end_date matches Some(end) ==> seconds_between(now, end)
                    >= cfg.min_ttr_seconds
                &&& book_a.ask() is Some
                &&& book_b.ask() is Some
                &&& one_unit() < 100 * units(a.0)
                &&& 100 * units(a.0) < 99 * one_unit()
                &&& one_unit() < 100 * units(b.0)
                &&& 100 * units(b.0) < 99 * one_unit()
                &&& x is Some
                &&& y is Some
                &&& units(x->0) >= units(cfg.min_liquidity_usdc)
                &&& units(y->0) >= units(cfg.min_liquidity_usdc)
                &&& edge is Some
                &&& units(edge->0) >= units(cfg.min_edge_per_unit)
                &&& units(edge->0) <= units(cfg.max_edge_per_unit)
                &&& units(a.1) > 0
                &&& units(b.1) > 0
                &&& units(cfg.max_shares) > 0
            }
        },
{
    lemma_cents();
}

/// One and ninety-nine cents, by their values.
proof fn lemma_cents()
    ensures
        100 * units(Num { mant: 1, scale: 2 }) == one_unit(),
        100 * units(Num { mant: 99, scale: 2 }) == 99 * one_unit(),
{
    reveal_with_fuel(pow10, 30);
}

/// Law: an entry buys both outcomes at their lowest asks. It buys the smallest of the
/// two sizes and of the cap, what it spends is the sum of the asks times these shares,
/// and what it expects to make is the edge times these shares.
pub proof fn entry_buys_the_smallest_size_of_both(
    market: MarketView,
    book_a: BookView,
    book_b: BookView,
    cfg: PureView,
    now: int,
)
    ensures
        pure_decision(market, book_a, book_b, cfg, now) matches Some(d) ==> (d.decision
            == DecisionKind::Enter ==> {
            let (a, b) = (book_a.ask()->0, book_b.ask()->0);
            &&& d.direction == Some("BOTH"@)
            &&& d.price_yes == a.0
            &&& d.price_no == b.0
            &&& d.size_yes_available == a.1
            &&& d.size_no_available == b.1
            &&& decimal_sum(a.0, b.0) == Some(d.sum_ask)
            &&& net_edge(a.0, b.0, cfg.fee_rate_bps, cfg.slippage_buffer_bps) == Some(
                d.edge_per_unit,
            )
            &&& exists|shares: Num|
                {
                    &&& #[trigger] decimal_product(d.sum_ask, shares) == Some(d.size_usdc)
                    &&& decimal_product(d.edge_per_unit, shares) == Some(d.expected_pnl_usdc)
                    &&& 0 < units(shares)
                    &&& units(shares) <= units(a.1)
                    &&& units(shares) <= units(b.1)
                    &&& units(shares) <= units(cfg.max_shares)
                    &&& shares == a.1 || shares == b.1 || shares == cfg.max_shares
                }
        }),
{
    if let Some(d) = pure_decision(market, book_a, book_b, cfg, now) {
        if d.decision == DecisionKind::Enter {
            let (a, b) = (book_a.ask()->0, book_b.ask()->0);
            let shares = num_min(num_min(a.1, b.1), cfg.max_shares);
            assert(decimal_product(d.sum_ask, shares) == Some(d.size_usdc));
        }
    }
}

/// Law: a decision to skip names the first filter that does not pass, and buys nothing.
pub proof fn skips_name_the_first_filter_that_fails(
    market: MarketView,
    book_a: BookView,
    book_b: BookView,
    cfg: PureView,
    now: int,
)
    ensures
        pure_decision(market, book_a, book_b, cfg, now) matches Some(d) ==> {
            let (a, b) = (book_a.ask()->0, book_b.ask()->0);
            let edge = net_edge(a.0, b.0, cfg.fee_rate_bps, cfg.slippage_buffer_bps)->0;
            let (x, y) = (decimal_product(a.0, a.1)->0, decimal_product(b.0, b.1)->0);
            let asked = book_a.ask() is Some && book_b.ask() is Some;
            let soon = market.end_date matches Some(end) && seconds_between(now, end)
                < cfg.min_ttr_seconds;
            let tradable = one_unit() < 100 * units(a.0) && 100 * units(a.0) < 99 * one_unit()
                && one_unit() < 100 * units(b.0) && 100 * units(b.0) < 99 * one_unit();
            let liquid = units(x) >= units(cfg.min_liquidity_usdc) && units(y) >= units(
                cfg.min_liquidity_usdc,
            );
            &&& market.neg_risk ==> d.skip_reason == Some("neg_risk"@)
            &&& !market.neg_risk && soon ==> d.skip_reason == Some("ttr_too_low"@)
            &&& !market.neg_risk && !soon ==> {
                &&& !asked ==> d.skip_reason == Some("liquidity_too_low"@)
                &&& asked && !tradable ==> d.skip_reason == Some("price_out_of_range"@)
                &&& asked && tradable && !liquid ==> d.skip_reason == Some("liquidity_too_low"@)
                &&& asked && tradable && liquid ==> {
                    &&& d.edge_per_unit == edge
                    &&& units(edge) < units(cfg.min_edge_per_unit) ==> d.skip_reason == Some(
                        "no_edge"@,
                    )
                    &&& units(edge) >= units(cfg.min_edge_per_unit) && units(edge) > units(
                        cfg.max_edge_per_unit,
                    ) ==> d.skip_reason == Some("edge_too_high_phantom"@)
                    &&& units(cfg.min_edge_per_unit) <= units(edge) <= units(cfg.max_edge_per_unit)
                        && (units(a.1) <= 0 || units(b.1) <= 0 || units(cfg.max_shares) <= 0)
                        ==> d.skip_reason == Some("liquidity_too_low"@)
                }
                &&& asked ==> {
                    &&& d.price_yes == a.0
                    &&& d.price_no == b.0
                    &&& d.size_yes_available == a.1
                    &&& d.size_no_available == b.1
                    &&& decimal_sum(a.0, b.0) == Some(d.sum_ask)
                }
            }
            &&& market.neg_risk || soon || !asked ==> {
                &&& d.price_yes.mant == 0
                &&& d.price_no.mant == 0
                &&& d.size_yes_available.mant == 0
                &&& d.size_no_available.mant == 0
                &&& d.sum_ask.mant == 0
            }
            &&& market.neg_risk || soon || !asked || !tradable || !liquid ==> d.edge_per_unit.mant
                == 0
            &&& d.decision == DecisionKind::Skip ==> d.direction is None && d.size_usdc.mant == 0
                && d.expected_pnl_usdc.mant == 0
            &&& d.decision == DecisionKind::Enter ==> d.skip_reason is None
        },
{
    lemma_cents();
}

/// Law: a decision is about its own market, at its own time, and signed by the strategy.
pub proof fn decisions_are_about_their_market(
    market: MarketView,
    book_a: BookView,
    book_b: BookView,
    cfg: PureView,
    now: int,
)
    ensures
        pure_decision(market, book_a, book_b, cfg, now) matches Some(d) ==> {
            &&& d.strategy == "B"@
            &&& d.timestamp == now
            &&& d.market_id == market.condition_id
            &&& d.market_slug == market.slug
            &&& d.yes_token_id == market.yes_token_id
            &&& d.no_token_id == market.no_token_id
            &&& d.neg_risk == market.neg_risk
            &&& match market.end_date {
                Some(end) => d.ttr_seconds == Some(seconds_between(now, end)),
                None => d.ttr_seconds is None,
            }
            &&& d.cex_product is None
            &&& d.cex_spot is None
            &&& d.cex_strike is None
            &&& d.cex_sigma_annual is None
            &&& d.p_model_yes is None
            &&& d.cex_edge is None
        },
{
}

/// Law: there is no decision only where a figure overflows: the sum of the asks, what is
/// on offer at one of them, the edge, or what an entry would spend or make.
pub proof fn only_figures_overflow(
    market: MarketView,
    book_a: BookView,
    book_b: BookView,
    cfg: PureView,
    now: int,
)
    ensures
        pure_decision(market, book_a, book_b, cfg, now) is None ==> {
            let (a, b) = (book_a.ask()->0, book_b.ask()->0);
            let edge = net_edge(a.0, b.0, cfg.fee_rate_bps, cfg.slippage_buffer_bps);
            let sum = decimal_sum(a.0, b.0);
            &&& !market.neg_risk
            &&& book_a.ask() is Some
            &&& book_b.ask() is Some
            &&& {
                ||| sum is None
                ||| decimal_product(a.0, a.1) is None
                ||| decimal_product(b.0, b.1) is None
                ||| edge is None
                ||| exists|shares: Num|
                    {
                        &&& #[trigger] decimal_product(sum->0, shares) is None || decimal_product(
                            edge->0,
                            shares,
                        ) is None
                        &&& 0 < units(shares)
                        &&& units(shares) <= units(a.1)
                        &&& units(shares) <= units(b.1)
                    }
            }
        },
{
    if pure_decision(market, book_a, book_b, cfg, now) is None {
        let (a, b) = (book_a.ask()->0, book_b.ask()->0);
        let edge = net_edge(a.0, b.0, cfg.fee_rate_bps, cfg.slippage_buffer_bps);
        let sum = decimal_sum(a.0, b.0);
        let shares = num_min(num_min(a.1, b.1), cfg.max_shares);
        assert(decimal_product(sum->0, shares) is None || decimal_product(edge->0, shares) is None
            || sum is None || edge is None || decimal_product(a.0, a.1) is None || decimal_product(
            b.0,
            b.1,
        ) is None);
    }
}

/// Law: a market is decided on by its own two books.
pub proof fn markets_are_decided_on_by_their_own_books(
    index: IndexView,
    cfg: PureView,
    market_id: Seq<char>,
    books: Map<Seq<char>, BookState>,
    now: int,
)
    ensures
        ({
            let (yes, no) = index.market_pairs[market_id];
            if index.markets.contains_key(market_id) && index.market_pairs.contains_key(market_id)
                && books.contains_key(yes) && books.contains_key(no) {
                &&& pure_market_decision(index, cfg, market_id, books, now) == pure_decision(
                    index.markets[market_id],
                    books[yes]@,
                    books[no]@,
                    cfg,
                    now,
                )
                &&& pure_market_overflows(index, cfg, market_id, books, now) == (pure_decision(
                    index.markets[market_id],
                    books[yes]@,
                    books[no]@,
                    cfg,
                    now,
                ) is None)
                &&& pure_market_defined(index, cfg, market_id, books) == pure_defined(
                    index.markets[market_id],
                    books[yes]@,
                    books[no]@,
                    cfg,
                )
            } else {
                &&& pure_market_decision(index, cfg, market_id, books, now) is None
                &&& !pure_market_overflows(index, cfg, market_id, books, now)
                &&& pure_market_defined(index, cfg, market_id, books)
            }
        }),
{
}

/// Strategy B over the markets that it was told of.
pub struct BilateralPureStrategy {
    cfg: BilateralPureConfig,
    index: MarketIndex,
}

impl BilateralPureStrategy {
    /// What an offer has to be like.
    pub closed spec fn config(self) -> PureView {
        self.cfg@
    }

    /// The markets.
    pub closed spec fn index(self) -> IndexView {
        self.index@
    }

    /// A strategy without markets.
    pub fn new(cfg: BilateralPureConfig) -> (r: BilateralPureStrategy)
        ensures
            r.config() == cfg@,
            r.index() == IndexView::empty(),
    {
        BilateralPureStrategy { cfg, index: MarketIndex::new() }
    }

    /// Adds a market.
    pub fn register_market(&mut self, market: Market)
        ensures
            final(self).config() == old(self).config(),
            final(self).index() == old(self).index().with(market@),
    {
        self.index.register(market);
    }

    /// The market of an asset.
    pub fn market_id_for_asset(&self, asset_id: &str) -> (r: Option<&str>)
        ensures
            match r {
                Some(id) => self.index().market_of(asset_id@) == Some(id@),
                None => self.index().market_of(asset_id@) is None,
            },
    {
        self.index.market_id_for_asset(asset_id)
    }

    /// Whether a market can be evaluated without overflow, whatever the time.
    pub fn is_market_defined(&self, market_id: &str, books: &StringMap<BookState>) -> (r: bool)
        ensures
            r == pure_market_defined(self.index(), self.config(), market_id@, books@),
    {
        match self.index.find(market_id) {
            None => true,
            Some((market, a, b)) => match (books.get(a), books.get(b)) {
                (Some(book_a), Some(book_b)) => is_pure_defined(market, book_a, book_b, &self.cfg),
                _ => true,
            },
        }
    }

    /// The decision on a market now, if it and both its books are known.
    pub fn evaluate_market(&self, market_id: &str, books: &StringMap<BookState>) -> (r: Option<
        Decision,
    >)
        requires
            pure_market_defined(self.index(), self.config(), market_id@, books@),
        ensures
            match r {
                Some(d) => {
                    &&& pure_market_decision(
                        self.index(),
                        self.config(),
                        market_id@,
                        books@,
                        d@.timestamp,
                    ) == Some(d@)
                    &&& pure_entry_is_sound(d@, self.config())
                },
                None => market_books(self.index(), market_id@, books@) is None,
            },
    {
        match self.index.find(market_id) {
            None => None,
            Some((market, a, b)) => match (books.get(a), books.get(b)) {
                (Some(book_a), Some(book_b)) => Some(evaluate(market, book_a, book_b, &self.cfg)),
                _ => None,
            },
        }
    }

    /// [`BilateralPureStrategy::evaluate_market`], unless a figure in the decision
    /// overflows at the time at which it is taken.
    pub fn try_evaluate_market(&self, market_id: &str, books: &StringMap<BookState>) -> (r: Checked<
        Option<Decision>,
    >)
        ensures
            match r {
                Checked::Overflow => exists|now: int|
                    in_range(now) && #[trigger] pure_market_overflows(
                        self.index(),
                        self.config(),
                        market_id@,
                        books@,
                        now,
                    ),
                Checked::Value(Some(d)) => {
                    &&& pure_market_decision(
                        self.index(),
                        self.config(),
                        market_id@,
                        books@,
                        d@.timestamp,
                    ) == Some(d@)
                    &&& pure_entry_is_sound(d@, self.config())
                },
                Checked::Value(None) => market_books(self.index(), market_id@, books@) is None,
            },
    {
        if self.is_market_defined(market_id, books) {
            return Checked::Value(self.evaluate_market(market_id, books));
        }
        let now = Timestamp::now();
        match self.index.find(market_id) {
            None => Checked::Value(None),
            Some((market, a, b)) => match (books.get(a), books.get(b)) {
                (Some(book_a), Some(book_b)) => match checked_evaluate_at(
                    market,
                    book_a,
                    book_b,
                    &self.cfg,
                    now,
                ) {
                    Some(d) => Checked::Value(Some(d)),
                    None => {
                        assert(pure_market_overflows(
                            self.index(),
                            self.config(),
                            market_id@,
                            books@,
                            now@,
                        ));
                        Checked::Overflow
                    },
                },
                _ => Checked::Value(None),
            },
        }
    }

    /// The market of every asset.
    pub fn tracked_assets(&self) -> (r: StringMap<String>)
        ensures
            text_map(r@) == self.index().asset_to_market,
    {
        self.index.tracked_assets()
    }

    /// What an offer has to be like.
    pub fn cfg(&self) -> (r: &BilateralPureConfig)
        ensures
            r@ == self.config(),
    {
        &self.cfg
    }
}

/// A market can be evaluated without overflow, whatever the time.
pub open spec fn pure_market_defined(
    index: IndexView,
    cfg: PureView,
    market_id: Seq<char>,
    books: Map<Seq<char>, BookState>,
) -> bool {
    match market_books(index, market_id, books) {
        Some((market, book_a, book_b)) => pure_defined(market, book_a, book_b, cfg),
        None => true,
    }
}

/// A figure in the decision on a market at `now` overflows.
pub open spec fn pure_market_overflows(
    index: IndexView,
    cfg: PureView,
    market_id: Seq<char>,
    books: Map<Seq<char>, BookState>,
    now: int,
) -> bool {
    market_books(index, market_id, books) matches Some((market, book_a, book_b)) && pure_decision(
        market,
        book_a,
        book_b,
        cfg,
        now,
    ) is None
}

/// The decision on a market at `now`, if it and both its books are known.
pub open spec fn pure_market_decision(
    index: IndexView,
    cfg: PureView,
    market_id: Seq<char>,
    books: Map<Seq<char>, BookState>,
    now: int,
) -> Option<DecisionView> {
    match market_books(index, market_id, books) {
        Some((market, book_a, book_b)) => pure_decision(market, book_a, book_b, cfg, now),
        None => None,
    }
}

/// Law: the shares to buy on an edge are the smallest of both sizes and of the cap. An
/// edge below the minimum, one above the maximum and nothing to buy each speak against it,
/// in this order.
pub proof fn edges_are_judged_in_order(edge: Num, size_a: Num, size_b: Num, cfg: PureView)
    ensures
        ({
            let v = edge_verdict(edge, size_a, size_b, cfg);
            let low = units(edge) < units(cfg.min_edge_per_unit);
            let high = units(edge) > units(cfg.max_edge_per_unit);
            let none = units(size_a) <= 0 || units(size_b) <= 0 || units(cfg.max_shares) <= 0;
            &&& low ==> v == Err::<Num, Seq<char>>("no_edge"@)
            &&& !low && high ==> v == Err::<Num, Seq<char>>("edge_too_high_phantom"@)
            &&& !low && !high && none ==> v == Err::<Num, Seq<char>>("liquidity_too_low"@)
            &&& !low && !high && !none ==> v is Ok
            &&& v matches Ok(shares) ==> {
                &&& units(shares) <= units(size_a)
                &&& units(shares) <= units(size_b)
                &&& units(shares) <= units(cfg.max_shares)
                &&& shares == size_a || shares == size_b || shares == cfg.max_shares
            }
        }),
{
}

/// Law: the decision on a market can be taken at every time just where it can be taken at
/// one at which the market does not resolve too soon.
pub proof fn defined_is_defined_in_time(
    market: MarketView,
    book_a: BookView,
    book_b: BookView,
    cfg: PureView,
    now: int,
)
    requires
        market.end_date matches Some(end) ==> seconds_between(now, end) >= cfg.min_ttr_seconds,
    ensures
        pure_defined(market, book_a, book_b, cfg) <==> pure_decision(
            market,
            book_a,
            book_b,
            cfg,
            now,
        ) is Some,
{
}

} // verus!
