//! Arbitrage within one binary market.
//!
//! Exactly one of YES and NO pays one dollar. If the lowest asks of both,
//! together with the fees on them, come to less than a dollar, then a share of
//! each is worth more than it costs.

use crate::book_state::{BookState, BookView};
use crate::decimal::{
    Checked, Decimal, Num, aligned_sum, aligns, common_scale, decimal_difference,
    decimal_option, decimal_product, decimal_quotient, decimal_sum, lemma_pow10_28,
    lemma_pow10_adds, lemma_pow10_positive, lemma_units_aligned_sum, lemma_units_sign,
    lemma_units_whole, max_mant, negated, num_min, odifference, one_unit, oproduct, osum, pow10,
    product_facts, representable, sum_facts, units, whole, whole_num,
};
use crate::fees::{
    bps_fraction, effective_fee_per_share, fee_ceiling, fee_needs_no_rounding, fee_per_share,
    few_decimals_need_no_rounding, fraction_of_bps, inside_unit, is_exact_fee, lemma_units_negated,
};
use crate::market_index::{IndexView, MarketIndex, text_map};
use crate::string_map::StringMap;
use crate::timestamp::Timestamp;
use crate::types::{ArbLeg, ArbLegView, ArbOpportunity, ArbOpportunityView, Market, MarketView, Side};
use vstd::prelude::*;

verus! {

/// What an opportunity has to offer.
#[derive(Debug, Clone, Copy)]
pub struct BilateralConfig {
    pub fee_rate_bps: u32,
    pub min_edge_per_unit: Decimal,
    pub slippage_buffer_bps: u32,
    pub max_shares: Decimal,
}

/// What a [`BilateralConfig`] says.
pub struct BilateralView {
    pub fee_rate_bps: int,
    pub min_edge_per_unit: Num,
    pub slippage_buffer_bps: int,
    pub max_shares: Num,
}

impl View for BilateralConfig {
    type V = BilateralView;

    open spec fn view(&self) -> BilateralView {
        BilateralView {
            fee_rate_bps: self.fee_rate_bps as int,
            min_edge_per_unit: self.min_edge_per_unit@,
            slippage_buffer_bps: self.slippage_buffer_bps as int,
            max_shares: self.max_shares@,
        }
    }
}

/// What a share of each outcome costs, fees and all.
pub open spec fn unit_cost(price_a: Num, price_b: Num, fee_rate_bps: int) -> Option<Num> {
    osum(
        osum(osum(Some(price_a), Some(price_b)), fee_per_share(price_a, fee_rate_bps)),
        fee_per_share(price_b, fee_rate_bps),
    )
}

/// What is left of a dollar after the cost of a share of each outcome and after
/// the slippage buffer.
pub open spec fn net_edge(
    price_a: Num,
    price_b: Num,
    fee_rate_bps: int,
    slippage_buffer_bps: int,
) -> Option<Num> {
    odifference(
        odifference(Some(whole_num(1)), unit_cost(price_a, price_b, fee_rate_bps)),
        bps_fraction(slippage_buffer_bps),
    )
}

/// What the asks, the fees and the slippage buffer come to, in units.
pub open spec fn costs(
    price_a: Num,
    price_b: Num,
    fee_rate_bps: int,
    slippage_buffer_bps: int,
) -> int {
    units(price_a) + units(price_b) + units(fee_per_share(price_a, fee_rate_bps)->0) + units(
        fee_per_share(price_b, fee_rate_bps)->0,
    ) + units(bps_fraction(slippage_buffer_bps)->0)
}

/// The sum of two numbers with all their decimals; a zero leaves the other as it is
/// written.
pub open spec fn plus(a: Num, b: Num) -> Num {
    if a.mant == 0 {
        b
    } else if b.mant == 0 {
        a
    } else {
        aligned_sum(a, b)
    }
}

/// What a share of each outcome costs with the fees on both, in units.
pub open spec fn asking_cost(price_a: Num, price_b: Num, fee_rate_bps: int) -> int {
    units(price_a) + units(price_b) + units(fee_per_share(price_a, fee_rate_bps)->0) + units(
        fee_per_share(price_b, fee_rate_bps)->0,
    )
}

/// What a share of each outcome costs with the fees on both, with all its decimals.
pub open spec fn full_cost(price_a: Num, price_b: Num, fee_rate_bps: int) -> Num {
    plus(
        plus(plus(price_a, price_b), fee_per_share(price_a, fee_rate_bps)->0),
        fee_per_share(price_b, fee_rate_bps)->0,
    )
}

/// The asks and the fees on them add up without rounding, if all the decimals fit.
/// They do up to six dollars, and so at a fee rate of up to two hundred percent.
pub open spec fn costs_add_up(price_a: Num, price_b: Num, fee_rate_bps: int) -> bool {
    let total = full_cost(price_a, price_b, fee_rate_bps);
    &&& representable(price_a)
    &&& representable(price_b)
    &&& representable(fee_per_share(price_a, fee_rate_bps)->0)
    &&& representable(fee_per_share(price_b, fee_rate_bps)->0)
    &&& osum(Some(price_a), Some(price_b)) == Some(plus(price_a, price_b))
    &&& fee_rate_bps <= 20000 ==> asking_cost(price_a, price_b, fee_rate_bps) <= whole(6)
    &&& asking_cost(price_a, price_b, fee_rate_bps) <= whole(6) ==> representable(total)
    &&& representable(total) ==> unit_cost(price_a, price_b, fee_rate_bps) == Some(total)
}

/// `edge` is exactly what the costs leave of a dollar, if the costs stay below six
/// dollars; where it is not negative, they do. The fees in them are exact where the prices have
/// few decimals, and the slippage buffer always is.
pub open spec fn edge_is_exact(
    price_a: Num,
    price_b: Num,
    fee_rate_bps: int,
    slippage_buffer_bps: int,
    edge: Num,
) -> bool {
    let fee_a = fee_per_share(price_a, fee_rate_bps)->0;
    let fee_b = fee_per_share(price_b, fee_rate_bps)->0;
    let total = costs(price_a, price_b, fee_rate_bps, slippage_buffer_bps);
    &&& units(fee_a) >= 0
    &&& units(fee_b) >= 0
    &&& fee_needs_no_rounding(price_a, fee_rate_bps) ==> is_exact_fee(price_a, fee_rate_bps, fee_a)
    &&& fee_needs_no_rounding(price_b, fee_rate_bps) ==> is_exact_fee(price_b, fee_rate_bps, fee_b)
    &&& units(bps_fraction(slippage_buffer_bps)->0) * 10000 == whole(slippage_buffer_bps)
    &&& slippage_buffer_bps >= 0
    &&& costs_add_up(price_a, price_b, fee_rate_bps)
    &&& units(edge) >= 0 ==> total <= whole(6)
    &&& total <= whole(6) ==> total + units(edge) == one_unit()
}

/// The edge between two lowest asks within a dollar is exact.
pub open spec fn offer_is_exact(
    ask_a: Option<(Num, Num)>,
    ask_b: Option<(Num, Num)>,
    fee_rate_bps: int,
    slippage_buffer_bps: int,
) -> bool {
    match (ask_a, ask_b) {
        (Some(a), Some(b)) => inside_unit(a.0) && inside_unit(b.0) ==> {
            let edge = net_edge(a.0, b.0, fee_rate_bps, slippage_buffer_bps);
            edge is Some && edge_is_exact(
                a.0,
                b.0,
                fee_rate_bps,
                slippage_buffer_bps,
                edge->0,
            )
        },
        _ => true,
    }
}

/// The figures of an opportunity.
pub struct FiguresView {
    pub price_a: Num,
    pub price_b: Num,
    pub sum_ask: Num,
    pub edge: Num,
    pub shares: Num,
    pub notional: Num,
    pub expected_pnl: Num,
}

/// The sum of the asks is exact, and of both products the most that is known
/// holds.
pub open spec fn figures_are_exact(f: FiguresView) -> bool {
    &&& units(f.sum_ask) == units(f.price_a) + units(f.price_b)
    &&& product_facts(f.sum_ask, f.shares, Some(f.notional))
    &&& product_facts(f.edge, f.shares, Some(f.expected_pnl))
}

/// The shares to buy on an edge, if it reaches the minimum and there is something
/// to buy: the smallest of the two sizes and of the cap.
pub open spec fn shares_on(edge: Num, size_a: Num, size_b: Num, cfg: BilateralView) -> Option<Num> {
    let shares = num_min(num_min(size_a, size_b), cfg.max_shares);
    if units(edge) < units(cfg.min_edge_per_unit) || units(shares) <= 0 {
        None
    } else {
        Some(shares)
    }
}

/// Of the notional and the profit between two lowest asks the most that is known
/// holds, also where they overflow.
pub open spec fn products_are_exact(
    ask_a: Option<(Num, Num)>,
    ask_b: Option<(Num, Num)>,
    cfg: BilateralView,
) -> bool {
    match (ask_a, ask_b) {
        (Some(a), Some(b)) => {
            let edge = net_edge(a.0, b.0, cfg.fee_rate_bps, cfg.slippage_buffer_bps)->0;
            let sum_ask = osum(Some(a.0), Some(b.0));
            inside_unit(a.0) && inside_unit(b.0) ==> match shares_on(edge, a.1, b.1, cfg) {
                Some(shares) => {
                    &&& product_facts(sum_ask->0, shares, oproduct(sum_ask, Some(shares)))
                    &&& product_facts(edge, shares, oproduct(Some(edge), Some(shares)))
                },
                None => true,
            }
        },
        _ => true,
    }
}

/// The figures of the opportunity between two lowest asks, if there is one;
/// nothing at all where its notional or its profit overflows.
pub open spec fn figures_of(
    ask_a: Option<(Num, Num)>,
    ask_b: Option<(Num, Num)>,
    cfg: BilateralView,
) -> Option<Option<FiguresView>> {
    match (ask_a, ask_b) {
        (Some((price_a, size_a)), Some((price_b, size_b))) => {
            if !inside_unit(price_a) || !inside_unit(price_b) {
                Some(None)
            } else {
                match net_edge(price_a, price_b, cfg.fee_rate_bps, cfg.slippage_buffer_bps) {
                    None => None,
                    Some(edge) => match shares_on(edge, size_a, size_b, cfg) {
                        None => Some(None),
                        Some(shares) => {
                            let sum_ask = osum(Some(price_a), Some(price_b));
                            match (
                                oproduct(sum_ask, Some(shares)),
                                oproduct(Some(edge), Some(shares)),
                            ) {
                                (Some(notional), Some(expected_pnl)) => Some(
                                    Some(
                                        FiguresView {
                                            price_a,
                                            price_b,
                                            sum_ask: sum_ask->0,
                                            edge,
                                            shares,
                                            notional,
                                            expected_pnl,
                                        },
                                    ),
                                ),
                                _ => None,
                            }
                        },
                    },
                }
            }
        },
        _ => Some(None),
    }
}

/// The opportunity with the figures `f`: buy as many shares of each outcome.
pub open spec fn opportunity_of(
    market: MarketView,
    book_a: BookView,
    book_b: BookView,
    f: FiguresView,
    now: int,
) -> ArbOpportunityView {
    ArbOpportunityView {
        strategy: "bilateral"@,
        market_id: market.condition_id,
        detected_at: now,
        legs: seq![
            ArbLegView {
                asset_id: book_a.asset_id,
                side: Side::Buy,
                price: f.price_a,
                size_shares: f.shares,
            },
            ArbLegView {
                asset_id: book_b.asset_id,
                side: Side::Buy,
                price: f.price_b,
                size_shares: f.shares,
            },
        ],
        edge_per_unit: f.edge,
        notional_usdc: f.notional,
        expected_pnl_usdc: f.expected_pnl,
        sum_ask: f.sum_ask,
    }
}

/// The opportunity that two books offer at `now`.
pub open spec fn bilateral_opportunity(
    market: MarketView,
    book_a: BookView,
    book_b: BookView,
    cfg: BilateralView,
    now: int,
) -> Option<ArbOpportunityView> {
    match figures_of(book_a.ask(), book_b.ask(), cfg) {
        Some(Some(f)) => Some(opportunity_of(market, book_a, book_b, f, now)),
        _ => None,
    }
}

/// The figures of two books can be worked out without overflow.
pub open spec fn bilateral_defined(book_a: BookView, book_b: BookView, cfg: BilateralView) -> bool {
    figures_of(book_a.ask(), book_b.ask(), cfg) is Some
}

/// The view of an optional opportunity.
pub open spec fn opportunity_option(o: Option<ArbOpportunity>) -> Option<ArbOpportunityView> {
    match o {
        Some(x) => Some(x@),
        None => None,
    }
}

/// Small numbers add up exactly.
pub(crate) proof fn lemma_small_sum_is_exact(a: Num, b: Num, r: Num)
    requires
        representable(a),
        representable(b),
        sum_facts(a, b, Some(r)),
        -whole(7) <= units(a) <= whole(7),
        -whole(7) <= units(b) <= whole(7),
        -whole(7) <= units(a) + units(b) <= whole(7),
    ensures
        units(r) == units(a) + units(b),
        r == plus(a, b),
{
    lemma_units_sign(a);
    lemma_units_sign(b);
    if a.mant != 0 && b.mant != 0 {
        let s = common_scale(a, b);
        lemma_units_aligned_sum(a, b);
        lemma_fits(Num { mant: a.mant * pow10(s - a.scale), scale: s });
        lemma_fits(Num { mant: b.mant * pow10(s - b.scale), scale: s });
        lemma_fits(aligned_sum(a, b));
        lemma_rescaled(a, s);
        lemma_rescaled(b, s);
        lemma_pow10_28();
        assert(aligned_sum(a, b).mant * 1 == aligned_sum(a, b).mant);
        assert(aligns(a, b));
    }
}

proof fn lemma_rescaled(n: Num, s: int)
    requires
        0 <= n.scale <= s <= 28,
    ensures
        units(Num { mant: n.mant * pow10(s - n.scale), scale: s }) == units(n),
{
    let (p, q) = (pow10(s - n.scale), pow10(28 - s));
    lemma_pow10_adds(s - n.scale, 28 - s);
    assert(n.mant * p * q == n.mant * (p * q)) by (nonlinear_arith);
}

proof fn lemma_fits(n: Num)
    requires
        0 <= n.scale <= 28,
    ensures
        -whole(7) <= units(n) <= whole(7) ==> -max_mant() <= n.mant <= max_mant(),
{
    let (m, p) = (n.mant, pow10(28 - n.scale));
    lemma_pow10_positive(28 - n.scale);
    if -whole(7) <= units(n) <= whole(7) {
        assert(m <= whole(7) && m >= -whole(7)) by (nonlinear_arith)
            requires
                p >= 1,
                -whole(7) <= m * p <= whole(7),
                whole(7) == 70000000000000000000000000000,
        ;
    }
}

/// A sum of two amounts from zero up to whole bounds.
pub(crate) fn bounded_sum(a: Decimal, b: Decimal, Ghost(k): Ghost<int>, Ghost(l): Ghost<int>) -> (r:
    Decimal)
    requires
        0 <= k <= 10_000_000,
        0 <= l <= 10_000_000,
        0 <= units(a@) <= whole(k),
        0 <= units(b@) <= whole(l),
    ensures
        osum(Some(a@), Some(b@)) == Some(r@),
        0 <= units(r@) <= whole(k + l),
        sum_facts(a@, b@, Some(r@)),
{
    let found = a.checked_add(b);
    proof {
        assert(whole(k) + whole(l) == whole(k + l)) by (nonlinear_arith);
        assert(whole(0) == 0);
        assert(1 * whole(k + l) == whole(k + l));
        assert(1 * whole(0) == whole(0));
    }
    found.unwrap()
}

/// A difference of an amount within whole bounds and one from zero up to a whole
/// bound.
pub(crate) fn bounded_difference(
    a: Decimal,
    b: Decimal,
    Ghost(k): Ghost<int>,
    Ghost(l): Ghost<int>,
) -> (r: Decimal)
    requires
        0 <= k <= 10_000_000,
        0 <= l <= 10_000_000,
        -whole(k) <= units(a@) <= whole(1),
        0 <= units(b@) <= whole(l),
    ensures
        odifference(Some(a@), Some(b@)) == Some(r@),
        -whole(k + l) <= units(r@) <= whole(1),
        sum_facts(a@, negated(b@), Some(r@)),
{
    let found = a.checked_sub(b);
    proof {
        lemma_units_negated(b@);
        assert(whole(k) + whole(l) == whole(k + l)) by (nonlinear_arith);
        assert(-whole(k + l) == whole(-(k + l))) by (nonlinear_arith);
        assert(whole(0) == 0);
        assert(1 * whole(1) == whole(1));
        assert(1 * whole(-(k + l)) == whole(-(k + l)));
    }
    found.unwrap()
}

/// The sum of two prices.
pub(crate) fn price_sum(price_a: Decimal, price_b: Decimal) -> (r: Decimal)
    requires
        inside_unit(price_a@),
        inside_unit(price_b@),
    ensures
        osum(Some(price_a@), Some(price_b@)) == Some(r@),
        0 <= units(r@) <= whole(2),
        units(r@) == units(price_a@) + units(price_b@),
        r@ == plus(price_a@, price_b@),
{
    proof {
        assert(whole(1) == one_unit());
        use_type_invariant(&price_a);
        use_type_invariant(&price_b);
    }
    let r = bounded_sum(price_a, price_b, Ghost(1), Ghost(1));
    proof {
        lemma_small_sum_is_exact(price_a@, price_b@, r@);
    }
    r
}

/// What the asks, the fees and the slippage buffer leave of a dollar.
pub(crate) fn edge_after_costs(
    price_a: Decimal,
    price_b: Decimal,
    fee_rate_bps: u32,
    slippage_buffer_bps: u32,
) -> (r: Decimal)
    requires
        inside_unit(price_a@),
        inside_unit(price_b@),
    ensures
        net_edge(price_a@, price_b@, fee_rate_bps as int, slippage_buffer_bps as int) == Some(r@),
        edge_is_exact(price_a@, price_b@, fee_rate_bps as int, slippage_buffer_bps as int, r@),
        -whole(2_000_000) <= units(r@) <= one_unit(),
{
    let fee_a = effective_fee_per_share(price_a, fee_rate_bps);
    let fee_b = effective_fee_per_share(price_b, fee_rate_bps);
    let asks = price_sum(price_a, price_b);
    proof {
        assert(fee_ceiling(fee_rate_bps as int) <= 429497);
        assert(whole(fee_ceiling(fee_rate_bps as int)) <= whole(429497));
    }
    let partial = bounded_sum(asks, fee_a, Ghost(2), Ghost(429497));
    let cost = bounded_sum(partial, fee_b, Ghost(429499), Ghost(429497));
    let one = Decimal::one();
    proof {
        lemma_units_whole(1);
        assert(whole(0) == 0);
    }
    let gross = bounded_difference(one, cost, Ghost(0), Ghost(858996));
    let slippage = fraction_of_bps(slippage_buffer_bps);
    let edge = bounded_difference(gross, slippage, Ghost(858996), Ghost(429497));
    proof {
        use_type_invariant(&fee_a);
        use_type_invariant(&fee_b);
        use_type_invariant(&asks);
        use_type_invariant(&partial);
        use_type_invariant(&cost);
        use_type_invariant(&one);
        use_type_invariant(&gross);
        use_type_invariant(&slippage);
        lemma_units_negated(cost@);
        lemma_units_negated(slippage@);
        assert(whole(1) == one_unit() && whole(7) == 7 * one_unit());
        let total = costs(
            price_a@,
            price_b@,
            fee_rate_bps as int,
            slippage_buffer_bps as int,
        );
        assert(whole(6) == 6 * one_unit() && whole(2) == 2 * one_unit());
        use_type_invariant(&price_a);
        use_type_invariant(&price_b);
        let bps = fee_rate_bps as int;
        if asking_cost(price_a@, price_b@, bps) <= whole(6) {
            lemma_small_sum_is_exact(asks@, fee_a@, partial@);
            lemma_small_sum_is_exact(partial@, fee_b@, cost@);
        }
        if representable(full_cost(price_a@, price_b@, bps)) {
            lemma_units_sign(asks@);
            lemma_units_sign(fee_a@);
            lemma_units_sign(fee_b@);
            lemma_parts_align(asks@, fee_a@, fee_b@);
        }
        if units(edge@) >= 0 {
            lemma_difference_above(gross@, slippage@, edge@, -1);
            lemma_difference_above(one@, cost@, gross@, -1);
            lemma_sum_below(partial@, fee_b@, cost@, 2);
            lemma_sum_below(asks@, fee_a@, partial@, 2);
            lemma_small_sum_is_exact(asks@, fee_a@, partial@);
            lemma_small_sum_is_exact(partial@, fee_b@, cost@);
        }
        if total <= whole(6) {
            lemma_small_sum_is_exact(one@, negated(cost@), gross@);
            lemma_small_sum_is_exact(gross@, negated(slippage@), edge@);
        }
        assert(whole(858996int + 429497int) <= whole(2_000_000));
    }
    edge
}

/// A difference that is above a whole number when rounded is above it.
proof fn lemma_difference_above(a: Num, b: Num, r: Num, k: int)
    requires
        sum_facts(a, negated(b), Some(r)),
        units(r) > whole(k),
        -10 <= k <= 10,
    ensures
        units(a) - units(b) > whole(k),
{
    lemma_units_negated(b);
    assert(1 * whole(k) == whole(k));
}

/// A sum that is below a whole number when rounded is below it.
proof fn lemma_sum_below(a: Num, b: Num, r: Num, k: int)
    requires
        sum_facts(a, b, Some(r)),
        units(r) < whole(k),
        -10 <= k <= 10,
    ensures
        units(a) + units(b) < whole(k),
{
    assert(1 * whole(k) == whole(k));
}

/// Where a sum fits with all its decimals, so do its terms.
proof fn lemma_terms_align(a: Num, b: Num)
    requires
        representable(a),
        0 <= b.scale <= 28,
        0 <= a.mant,
        0 <= b.mant,
        representable(aligned_sum(a, b)),
    ensures
        aligns(a, b),
        representable(b),
{
    let s = common_scale(a, b);
    let (p, q) = (pow10(s - a.scale), pow10(s - b.scale));
    lemma_pow10_positive(s - a.scale);
    lemma_pow10_positive(s - b.scale);
    let (m, n) = (a.mant, b.mant);
    assert(m * p >= 0 && n * q >= n && n * q >= 0) by (nonlinear_arith)
        requires
            p >= 1,
            q >= 1,
            m >= 0,
            n >= 0,
    ;
    lemma_pow10_28();
    assert(aligned_sum(a, b).mant * 1 == aligned_sum(a, b).mant);
}

/// Where an amount and two more fit together with all their decimals, every step of
/// adding them up does.
proof fn lemma_parts_align(x: Num, f: Num, g: Num)
    requires
        representable(x),
        representable(f),
        representable(g),
        x.mant > 0,
        f.mant >= 0,
        g.mant >= 0,
        representable(plus(plus(x, f), g)),
    ensures
        f.mant != 0 ==> aligns(x, f),
        plus(x, f).mant > 0,
        g.mant != 0 ==> aligns(plus(x, f), g),
{
    lemma_units_sign(x);
    lemma_units_sign(f);
    lemma_units_aligned_sum(x, f);
    lemma_units_sign(aligned_sum(x, f));
    let xf = plus(x, f);
    if g.mant != 0 {
        lemma_terms_align(g, xf);
        assert(aligned_sum(g, xf) == aligned_sum(xf, g));
    }
    if f.mant != 0 {
        lemma_terms_align(x, f);
    }
}

/// The figures of an opportunity.
#[derive(Debug, Clone, Copy)]
pub struct Figures {
    pub price_a: Decimal,
    pub price_b: Decimal,
    pub sum_ask: Decimal,
    pub edge: Decimal,
    pub shares: Decimal,
    pub notional: Decimal,
    pub expected_pnl: Decimal,
}

impl View for Figures {
    type V = FiguresView;

    open spec fn view(&self) -> FiguresView {
        FiguresView {
            price_a: self.price_a@,
            price_b: self.price_b@,
            sum_ask: self.sum_ask@,
            edge: self.edge@,
            shares: self.shares@,
            notional: self.notional@,
            expected_pnl: self.expected_pnl@,
        }
    }
}

/// The shares to buy on an edge, if it reaches the minimum and there is something
/// to buy.
pub fn worthwhile_shares(edge: Decimal, size_a: Decimal, size_b: Decimal, cfg: &BilateralConfig) -> (r:
    Option<Decimal>)
    ensures
        decimal_option(r) == shares_on(edge@, size_a@, size_b@, cfg@),
        r is Some <==> units(edge@) >= units(cfg@.min_edge_per_unit) && units(size_a@) > 0 && units(
            size_b@,
        ) > 0 && units(cfg@.max_shares) > 0,
        r matches Some(d) ==> {
            &&& units(d@) <= units(size_a@)
            &&& units(d@) <= units(size_b@)
            &&& units(d@) <= units(cfg@.max_shares)
            &&& d@ == size_a@ || d@ == size_b@ || d@ == cfg@.max_shares
        },
{
    if edge < cfg.min_edge_per_unit {
        return None;
    }
    let shares = size_a.min(size_b).min(cfg.max_shares);
    if shares.is_positive() {
        Some(shares)
    } else {
        None
    }
}

/// The figures of the opportunity between two books.
fn work_out(book_a: &BookState, book_b: &BookState, cfg: &BilateralConfig) -> (r: Option<
    Option<Figures>,
>)
    ensures
        match r {
            Some(Some(f)) => figures_of(book_a@.ask(), book_b@.ask(), cfg@) == Some(Some(f@)),
            Some(None) => figures_of(book_a@.ask(), book_b@.ask(), cfg@) == Some(
                None::<FiguresView>,
            ),
            None => figures_of(book_a@.ask(), book_b@.ask(), cfg@) is None,
        },
        offer_is_exact(
            book_a@.ask(),
            book_b@.ask(),
            cfg@.fee_rate_bps,
            cfg@.slippage_buffer_bps,
        ),
        products_are_exact(book_a@.ask(), book_b@.ask(), cfg@),
        r matches Some(Some(f)) ==> figures_are_exact(f@),
{
    let (price_a, size_a) = match book_a.best_ask() {
        Some(l) => l,
        None => return Some(None),
    };
    let (price_b, size_b) = match book_b.best_ask() {
        Some(l) => l,
        None => return Some(None),
    };
    let zero = Decimal::zero();
    let one = Decimal::one();
    proof {
        lemma_units_whole(0);
        lemma_units_whole(1);
        assert(whole(0) == 0);
        assert(whole(1) == one_unit());
    }
    if price_a <= zero || price_b <= zero || price_a >= one || price_b >= one {
        return Some(None);
    }
    let edge = edge_after_costs(price_a, price_b, cfg.fee_rate_bps, cfg.slippage_buffer_bps);
    let shares = match worthwhile_shares(edge, size_a, size_b, cfg) {
        Some(x) => x,
        None => return Some(None),
    };
    let sum_ask = price_sum(price_a, price_b);
    match (sum_ask.checked_mul(shares), edge.checked_mul(shares)) {
        (Some(notional), Some(expected_pnl)) => Some(
            Some(Figures { price_a, price_b, sum_ask, edge, shares, notional, expected_pnl }),
        ),
        _ => None,
    }
}

/// Whether the figures of two books can be worked out without overflow.
pub fn is_bilateral_defined(book_a: &BookState, book_b: &BookState, cfg: &BilateralConfig) -> (r:
    bool)
    ensures
        r == bilateral_defined(book_a@, book_b@, cfg@),
        offer_is_exact(
            book_a@.ask(),
            book_b@.ask(),
            cfg@.fee_rate_bps,
            cfg@.slippage_buffer_bps,
        ),
        products_are_exact(book_a@.ask(), book_b@.ask(), cfg@),
{
    work_out(book_a, book_b, cfg).is_some()
}

/// The opportunity with given figures: buy as many shares of each outcome.
pub fn opportunity_with(
    market: &Market,
    book_a: &BookState,
    book_b: &BookState,
    f: &Figures,
    now: Timestamp,
) -> (r: ArbOpportunity)
    ensures
        r@ == opportunity_of(market@, book_a@, book_b@, f@, now@),
{
    let leg_a = ArbLeg {
        asset_id: book_a.asset_id.clone(),
        side: Side::Buy,
        price: f.price_a,
        size_shares: f.shares,
    };
    let leg_b = ArbLeg {
        asset_id: book_b.asset_id.clone(),
        side: Side::Buy,
        price: f.price_b,
        size_shares: f.shares,
    };
    let mut legs: Vec<ArbLeg> = Vec::new();
    legs.push(leg_a);
    legs.push(leg_b);
    let opportunity = ArbOpportunity {
        strategy: "bilateral".to_string(),
        market_id: market.condition_id.clone(),
        detected_at: now,
        legs,
        edge_per_unit: f.edge,
        notional_usdc: f.notional,
        expected_pnl_usdc: f.expected_pnl,
        sum_ask: f.sum_ask,
    };
    proof {
        assert(opportunity@ =~~= opportunity_of(market@, book_a@, book_b@, f@, now@));
    }
    opportunity
}

/// The opportunity that two books offer at `now`: the lowest asks are both
/// between zero and one, the edge reaches the minimum, and there is something to
/// buy. Its shares are the smallest of the two sizes and of the cap.
pub fn detect_bilateral_at(
    market: &Market,
    book_a: &BookState,
    book_b: &BookState,
    cfg: &BilateralConfig,
    now: Timestamp,
) -> (r: Option<ArbOpportunity>)
    requires
        bilateral_defined(book_a@, book_b@, cfg@),
    ensures
        opportunity_option(r) == bilateral_opportunity(market@, book_a@, book_b@, cfg@, now@),
        offer_is_exact(
            book_a@.ask(),
            book_b@.ask(),
            cfg@.fee_rate_bps,
            cfg@.slippage_buffer_bps,
        ),
        products_are_exact(book_a@.ask(), book_b@.ask(), cfg@),
        r is Some ==> figures_are_exact(
            figures_of(book_a@.ask(), book_b@.ask(), cfg@)->0->0,
        ),
{
    match work_out(book_a, book_b, cfg).unwrap() {
        Some(f) => Some(opportunity_with(market, book_a, book_b, &f, now)),
        None => None,
    }
}

/// The opportunity that two books offer now.
pub fn detect_bilateral(
    market: &Market,
    book_a: &BookState,
    book_b: &BookState,
    cfg: &BilateralConfig,
) -> (r: Option<ArbOpportunity>)
    requires
        bilateral_defined(book_a@, book_b@, cfg@),
    ensures
        match r {
            Some(o) => bilateral_opportunity(
                market@,
                book_a@,
                book_b@,
                cfg@,
                o@.detected_at,
            ) == Some(o@) && figures_are_exact(
                figures_of(book_a@.ask(), book_b@.ask(), cfg@)->0->0,
            ),
            None => forall|now: int| #[trigger]
                bilateral_opportunity(market@, book_a@, book_b@, cfg@, now) is None,
        },
        offer_is_exact(
            book_a@.ask(),
            book_b@.ask(),
            cfg@.fee_rate_bps,
            cfg@.slippage_buffer_bps,
        ),
        products_are_exact(book_a@.ask(), book_b@.ask(), cfg@),
{
    let now = Timestamp::now();
    detect_bilateral_at(market, book_a, book_b, cfg, now)
}

/// Law: an opportunity with a positive minimum edge is no loss. A share of each
/// outcome at the asks, with the fees on both, costs less than the dollar that
/// one of them pays, by at least that minimum.
pub proof fn opportunity_costs_less_than_it_pays(
    ask_a: Option<(Num, Num)>,
    ask_b: Option<(Num, Num)>,
    cfg: BilateralView,
    f: FiguresView,
)
    requires
        figures_of(ask_a, ask_b, cfg) == Some(Some(f)),
        offer_is_exact(ask_a, ask_b, cfg.fee_rate_bps, cfg.slippage_buffer_bps),
        units(cfg.min_edge_per_unit) > 0,
    ensures
        units(f.price_a) + units(f.price_b) + units(fee_per_share(f.price_a, cfg.fee_rate_bps)->0)
            + units(fee_per_share(f.price_b, cfg.fee_rate_bps)->0) + units(cfg.min_edge_per_unit)
            <= one_unit(),
        units(f.price_a) + units(f.price_b) < one_unit(),
        units(f.shares) > 0,
        units(f.shares) <= units((ask_a->0).1),
        units(f.shares) <= units((ask_b->0).1),
        units(f.shares) <= units(cfg.max_shares),
{
}

/// Law: there is an opportunity just where both books have a lowest ask strictly
/// between zero and one, the net edge between them reaches the minimum, and both sizes
/// and the cap are positive, however small. It buys as many shares of each outcome, at
/// its own ask: the smallest of the two sizes and of the cap.
pub proof fn every_edge_is_an_opportunity(
    market: MarketView,
    book_a: BookView,
    book_b: BookView,
    cfg: BilateralView,
    now: int,
)
    requires
        bilateral_defined(book_a, book_b, cfg),
    ensures
        ({
            let (a, b) = (book_a.ask()->0, book_b.ask()->0);
            let edge = net_edge(a.0, b.0, cfg.fee_rate_bps, cfg.slippage_buffer_bps);
            let found = bilateral_opportunity(market, book_a, book_b, cfg, now);
            let o = found->0;
            let shares = o.legs[0].size_shares;
            &&& found is Some <==> {
                &&& book_a.ask() is Some
                &&& book_b.ask() is Some
                &&& 0 < units(a.0)
                &&& units(a.0) < one_unit()
                &&& 0 < units(b.0)
                &&& units(b.0) < one_unit()
                &&& edge is Some
                &&& units(edge->0) >= units(cfg.min_edge_per_unit)
                &&& units(a.1) > 0
                &&& units(b.1) > 0
                &&& units(cfg.max_shares) > 0
            }
            &&& found is Some ==> {
                &&& units(shares) == (if units(a.1) <= units(b.1) && units(a.1) <= units(
                    cfg.max_shares,
                ) {
                    units(a.1)
                } else if units(b.1) <= units(cfg.max_shares) {
                    units(b.1)
                } else {
                    units(cfg.max_shares)
                })
                &&& shares == a.1 || shares == b.1 || shares == cfg.max_shares
                &&& o.legs.len() == 2
                &&& o.legs[0].asset_id == book_a.asset_id
                &&& o.legs[0].side == Side::Buy
                &&& o.legs[0].price == a.0
                &&& o.legs[1].asset_id == book_b.asset_id
                &&& o.legs[1].side == Side::Buy
                &&& o.legs[1].price == b.0
                &&& o.legs[1].size_shares == shares
                &&& o.strategy == "bilateral"@
                &&& o.market_id == market.condition_id
                &&& o.detected_at == now
                &&& o.edge_per_unit == edge->0
                &&& decimal_sum(a.0, b.0) == Some(o.sum_ask)
                &&& decimal_product(o.sum_ask, shares) == Some(o.notional_usdc)
                &&& decimal_product(o.edge_per_unit, shares) == Some(o.expected_pnl_usdc)
            }
        }),
{
}

/// Law: figures overflow only where the notional or the profit of an opportunity does.
pub proof fn only_products_overflow(book_a: BookView, book_b: BookView, cfg: BilateralView)
    requires
        offer_is_exact(book_a.ask(), book_b.ask(), cfg.fee_rate_bps, cfg.slippage_buffer_bps),
    ensures
        !bilateral_defined(book_a, book_b, cfg) ==> {
            let (a, b) = (book_a.ask()->0, book_b.ask()->0);
            let edge = net_edge(a.0, b.0, cfg.fee_rate_bps, cfg.slippage_buffer_bps)->0;
            &&& book_a.ask() is Some
            &&& book_b.ask() is Some
            &&& 0 < units(a.0) < one_unit()
            &&& 0 < units(b.0) < one_unit()
            &&& units(edge) >= units(cfg.min_edge_per_unit)
            &&& exists|shares: Num|
                {
                    &&& 0 < units(shares)
                    &&& units(shares) <= units(a.1)
                    &&& units(shares) <= units(b.1)
                    &&& units(shares) <= units(cfg.max_shares)
                    &&& #[trigger] decimal_product(edge, shares) is None || decimal_product(
                        decimal_sum(a.0, b.0)->0,
                        shares,
                    ) is None
                }
        },
{
    if !bilateral_defined(book_a, book_b, cfg) {
        let (a, b) = (book_a.ask()->0, book_b.ask()->0);
        let edge = net_edge(a.0, b.0, cfg.fee_rate_bps, cfg.slippage_buffer_bps)->0;
        let shares = shares_on(edge, a.1, b.1, cfg)->0;
        assert(decimal_product(edge, shares) is None || decimal_product(
            decimal_sum(a.0, b.0)->0,
            shares,
        ) is None);
    }
}

/// Law: the net edge is what is left of a dollar after both asks, the fee on a share of
/// each, which is `bps / 10000 * price^2 * (1 - price)`, and the slippage buffer of so
/// many basis points. This is exact for prices of up to eight decimals and rates of up
/// to a hundred percent.
pub proof fn edge_is_a_dollar_less_the_costs(
    price_a: Num,
    price_b: Num,
    fee_rate_bps: int,
    slippage_buffer_bps: int,
)
    requires
        offer_is_exact(
            Some((price_a, price_a)),
            Some((price_b, price_b)),
            fee_rate_bps,
            slippage_buffer_bps,
        ),
        0 < units(price_a) < one_unit(),
        0 < units(price_b) < one_unit(),
        0 <= price_a.scale <= 8,
        0 <= price_b.scale <= 8,
        0 <= fee_rate_bps <= 10000,
        0 <= slippage_buffer_bps <= 10000,
    ensures
        net_edge(price_a, price_b, fee_rate_bps, slippage_buffer_bps) matches Some(edge) && {
            let (p, q, u) = (units(price_a), units(price_b), one_unit());
            units(edge) * (10000 * u * u) == (u - p - q) * (10000 * u * u) - fee_rate_bps * (p * (p
                * (u - p))) - fee_rate_bps * (q * (q * (u - q))) - slippage_buffer_bps * (u * u * u)
        },
{
    let (p, q, u) = (units(price_a), units(price_b), one_unit());
    few_decimals_need_no_rounding(price_a, fee_rate_bps);
    few_decimals_need_no_rounding(price_b, fee_rate_bps);
    let (f, g, s) = (
        units(fee_per_share(price_a, fee_rate_bps)->0),
        units(fee_per_share(price_b, fee_rate_bps)->0),
        units(bps_fraction(slippage_buffer_bps)->0),
    );
    let e = units(net_edge(price_a, price_b, fee_rate_bps, slippage_buffer_bps)->0);
    lemma_fee_below_one(p, fee_rate_bps, f);
    lemma_fee_below_one(q, fee_rate_bps, g);
    assert(s <= u) by (nonlinear_arith)
        requires
            s * 10000 == slippage_buffer_bps * u,
            slippage_buffer_bps <= 10000,
            u > 0,
    ;
    assert(whole(6) == 6 * u);
    assert(p + q + f + g + s + e == u);
    let d = 10000 * u * u;
    assert(s * d == slippage_buffer_bps * (u * u * u)) by (nonlinear_arith)
        requires
            d == 10000 * u * u,
            s * 10000 == slippage_buffer_bps * u,
    {
        assert(s * (10000 * u * u) == (s * 10000) * (u * u));
        assert((slippage_buffer_bps * u) * (u * u) == slippage_buffer_bps * (u * u * u));
    }
    assert(e * d == (u - p - q) * d - f * d - g * d - s * d) by (nonlinear_arith)
        requires
            p + q + f + g + s + e == u,
    ;
}

/// A fee of up to a hundred percent of `price^2 * (1 - price)` is below a dollar.
proof fn lemma_fee_below_one(p: int, bps: int, fee: int)
    requires
        0 < p < one_unit(),
        0 <= bps <= 10000,
        fee * (10000 * one_unit() * one_unit()) == bps * (p * (p * (one_unit() - p))),
    ensures
        fee <= one_unit(),
{
    let u = one_unit();
    let x = p * (p * (u - p));
    assert(0 <= x <= u * (u * u)) by (nonlinear_arith)
        requires
            0 < p < u,
            x == p * (p * (u - p)),
    {
        assert(0 <= p * (u - p) <= u * u);
    }
    assert(fee <= u) by (nonlinear_arith)
        requires
            fee * (10000 * u * u) == bps * x,
            0 <= bps <= 10000,
            0 <= x <= u * (u * u),
            u > 0,
    {
        assert(bps * x <= 10000 * (u * (u * u)));
        assert(10000 * (u * (u * u)) == u * (10000 * u * u));
        assert(10000 * u * u > 0);
    }
}

/// Law: a market is evaluated on the books of its own two assets, YES first, and not at
/// all where it or one of them is not known.
pub proof fn markets_are_evaluated_on_their_own_books(
    index: IndexView,
    cfg: BilateralView,
    market_id: Seq<char>,
    books: Map<Seq<char>, BookState>,
    now: int,
)
    ensures
        ({
            let (yes, no) = index.market_pairs[market_id];
            if index.markets.contains_key(market_id) && index.market_pairs.contains_key(market_id)
                && books.contains_key(yes) && books.contains_key(no) {
                &&& market_books(index, market_id, books) == Some(
                    (index.markets[market_id], books[yes]@, books[no]@),
                )
                &&& market_opportunity(index, cfg, market_id, books, now) == bilateral_opportunity(
                    index.markets[market_id],
                    books[yes]@,
                    books[no]@,
                    cfg,
                    now,
                )
                &&& market_defined(index, cfg, market_id, books) == bilateral_defined(
                    books[yes]@,
                    books[no]@,
                    cfg,
                )
            } else {
                &&& market_books(index, market_id, books) is None
                &&& market_opportunity(index, cfg, market_id, books, now) is None
                &&& market_defined(index, cfg, market_id, books)
            }
        }),
{
}

/// Adding two amounts in either order gives the same number, written the same way.
proof fn lemma_plus_swaps(x: Num, f: Num, g: Num)
    requires
        representable(x),
        representable(f),
        representable(g),
        x.mant > 0,
        f.mant >= 0,
        g.mant >= 0,
    ensures
        plus(plus(x, f), g) == plus(plus(x, g), f),
{
    lemma_units_sign(x);
    lemma_units_sign(f);
    lemma_units_sign(g);
    let (xf, xg) = (aligned_sum(x, f), aligned_sum(x, g));
    lemma_units_aligned_sum(x, f);
    lemma_units_aligned_sum(x, g);
    lemma_units_sign(xf);
    lemma_units_sign(xg);
    if f.mant != 0 && g.mant != 0 {
        let (l, r) = (aligned_sum(xf, g), aligned_sum(xg, f));
        lemma_units_aligned_sum(xf, g);
        lemma_units_aligned_sum(xg, f);
        let p = pow10(28 - l.scale);
        lemma_pow10_positive(28 - l.scale);
        assert(l.mant == r.mant) by (nonlinear_arith)
            requires
                l.mant * p == r.mant * p,
                p >= 1,
        ;
    }
}

/// The lowest asks within a dollar, with the fees on both, add up without rounding.
pub open spec fn asks_add_up(
    ask_a: Option<(Num, Num)>,
    ask_b: Option<(Num, Num)>,
    fee_rate_bps: int,
) -> bool {
    match (ask_a, ask_b) {
        (Some(a), Some(b)) => inside_unit(a.0) && inside_unit(b.0) ==> representable(
            full_cost(a.0, b.0, fee_rate_bps),
        ),
        _ => true,
    }
}

/// Two legs buy the same, the number of shares by its value.
pub open spec fn same_leg(x: ArbLegView, y: ArbLegView) -> bool {
    &&& x.asset_id == y.asset_id
    &&& x.side == y.side
    &&& x.price == y.price
    &&& units(x.size_shares) == units(y.size_shares)
}

/// Two opportunities are the same but for the order of their legs, the notional and
/// the profit by their values.
pub open spec fn same_but_reversed(
    o: Option<ArbOpportunityView>,
    p: Option<ArbOpportunityView>,
) -> bool {
    match (o, p) {
        (Some(x), Some(y)) => {
            &&& x.strategy == y.strategy
            &&& x.market_id == y.market_id
            &&& x.detected_at == y.detected_at
            &&& x.legs.len() == 2
            &&& y.legs.len() == 2
            &&& same_leg(x.legs[0], y.legs[1])
            &&& same_leg(x.legs[1], y.legs[0])
            &&& x.edge_per_unit == y.edge_per_unit
            &&& units(x.notional_usdc) == units(y.notional_usdc)
            &&& units(x.expected_pnl_usdc) == units(y.expected_pnl_usdc)
            &&& x.sum_ask == y.sum_ask
        },
        (None, None) => true,
        _ => false,
    }
}

/// Law: which outcome comes first makes no difference. With the two books swapped,
/// the opportunity is the same with its legs in reverse order, however the sizes are
/// written, and it overflows in neither order or in both. This holds wherever the
/// minimum edge is not negative or the asks add up without rounding.
pub proof fn swapped_books_offer_the_same(
    market: MarketView,
    book_a: BookView,
    book_b: BookView,
    cfg: BilateralView,
    now: int,
)
    requires
        offer_is_exact(
            book_a.ask(),
            book_b.ask(),
            cfg.fee_rate_bps,
            cfg.slippage_buffer_bps,
        ),
        offer_is_exact(
            book_b.ask(),
            book_a.ask(),
            cfg.fee_rate_bps,
            cfg.slippage_buffer_bps,
        ),
        products_are_exact(book_a.ask(), book_b.ask(), cfg),
        products_are_exact(book_b.ask(), book_a.ask(), cfg),
        units(cfg.min_edge_per_unit) >= 0 || asks_add_up(
            book_a.ask(),
            book_b.ask(),
            cfg.fee_rate_bps,
        ),
    ensures
        same_but_reversed(
            bilateral_opportunity(market, book_a, book_b, cfg, now),
            bilateral_opportunity(market, book_b, book_a, cfg, now),
        ),
        bilateral_defined(book_b, book_a, cfg) == bilateral_defined(book_a, book_b, cfg),
{
    if let (Some(a), Some(b)) = (book_a.ask(), book_b.ask()) {
        if inside_unit(a.0) && inside_unit(b.0) {
            let bps = cfg.fee_rate_bps;
            let (fee_a, fee_b) = (fee_per_share(a.0, bps)->0, fee_per_share(b.0, bps)->0);
            lemma_units_sign(a.0);
            lemma_units_sign(b.0);
            lemma_units_sign(fee_a);
            lemma_units_sign(fee_b);
            assert(plus(a.0, b.0) == plus(b.0, a.0));
            lemma_units_aligned_sum(a.0, b.0);
            lemma_units_sign(plus(a.0, b.0));
            lemma_sum_of_prices(a.0, b.0);
            lemma_plus_swaps(plus(a.0, b.0), fee_a, fee_b);
            assert(full_cost(a.0, b.0, bps) == full_cost(b.0, a.0, bps));
            if representable(full_cost(a.0, b.0, bps)) {
                assert(unit_cost(a.0, b.0, bps) == unit_cost(b.0, a.0, bps));
            } else {
                assert(asking_cost(a.0, b.0, bps) > whole(6));
            }
        }
    }
}

/// The sum of two prices fits an amount with all its decimals.
proof fn lemma_sum_of_prices(a: Num, b: Num)
    requires
        representable(a),
        representable(b),
        inside_unit(a),
        inside_unit(b),
    ensures
        representable(plus(a, b)),
{
    lemma_units_sign(a);
    lemma_units_sign(b);
    lemma_units_aligned_sum(a, b);
    assert(whole(7) == 7 * one_unit());
    lemma_fits(aligned_sum(a, b));
}

/// Finds opportunities in the markets that it was told of.
pub struct BilateralArbStrategy {
    cfg: BilateralConfig,
    index: MarketIndex,
}

impl BilateralArbStrategy {
    /// What an opportunity has to offer.
    pub closed spec fn config(self) -> BilateralView {
        self.cfg@
    }

    /// The markets.
    pub closed spec fn index(self) -> IndexView {
        self.index@
    }

    /// A strategy without markets.
    pub fn new(cfg: BilateralConfig) -> (r: BilateralArbStrategy)
        ensures
            r.config() == cfg@,
            r.index() == IndexView::empty(),
    {
        BilateralArbStrategy { cfg, index: MarketIndex::new() }
    }

    /// Adds a market.
    pub fn register_market(&mut self, market: Market)
        ensures
            final(self).config() == old(self).config(),
            final(self).index() == old(self).index().with(market@),
    {
        self.index.register(market);
    }

    /// Takes a market out.
    pub fn unregister_market(&mut self, condition_id: &str)
        ensures
            final(self).config() == old(self).config(),
            final(self).index() == old(self).index().without(condition_id@),
    {
        self.index.unregister(condition_id);
    }

    /// The market of an asset.
    pub fn market_id_for_asset(&self, asset_id: &str) -> (r: Option<&str>)
        ensures
            match r {
                Some(id) => self.index().market_of(asset_id@) == Some(id@),
                None => self.index().market_of(asset_id@) is None,
            },
    {
        self.index.market_id_for_asset(asset_id)
    }

    /// Whether a market can be evaluated without overflow.
    pub fn is_market_defined(&self, market_id: &str, books: &StringMap<BookState>) -> (r: bool)
        ensures
            r == market_defined(self.index(), self.config(), market_id@, books@),
            market_is_exact(self.index(), self.config(), market_id@, books@),
    {
        match self.index.find(market_id) {
            None => true,
            Some((_, a, b)) => match (books.get(a), books.get(b)) {
                (Some(book_a), Some(book_b)) => is_bilateral_defined(book_a, book_b, &self.cfg),
                _ => true,
            },
        }
    }

    /// The opportunity that a market offers at `now`, if it and both its books
    /// are known.
    pub fn evaluate_market_at(
        &self,
        market_id: &str,
        books: &StringMap<BookState>,
        now: Timestamp,
    ) -> (r: Option<ArbOpportunity>)
        requires
            market_defined(self.index(), self.config(), market_id@, books@),
        ensures
            opportunity_option(r) == market_opportunity(
                self.index(),
                self.config(),
                market_id@,
                books@,
                now@,
            ),
            market_is_exact(self.index(), self.config(), market_id@, books@),
    {
        match self.index.find(market_id) {
            None => None,
            Some((market, a, b)) => match (books.get(a), books.get(b)) {
                (Some(book_a), Some(book_b)) => detect_bilateral_at(
                    market,
                    book_a,
                    book_b,
                    &self.cfg,
                    now,
                ),
                _ => None,
            },
        }
    }

    /// The opportunity that a market offers now, if it and both its books are
    /// known.
    pub fn evaluate_market(&self, market_id: &str, books: &StringMap<BookState>) -> (r: Option<
        ArbOpportunity,
    >)
        requires
            market_defined(self.index(), self.config(), market_id@, books@),
        ensures
            match r {
                Some(o) => market_opportunity(
                    self.index(),
                    self.config(),
                    market_id@,
                    books@,
                    o@.detected_at,
                ) == Some(o@),
                None => forall|now: int| #[trigger]
                    market_opportunity(self.index(), self.config(), market_id@, books@, now)
                        is None,
            },
            market_is_exact(self.index(), self.config(), market_id@, books@),
    {
        match self.index.find(market_id) {
            None => None,
            Some((market, a, b)) => match (books.get(a), books.get(b)) {
                (Some(book_a), Some(book_b)) => detect_bilateral(
                    market,
                    book_a,
                    book_b,
                    &self.cfg,
                ),
                _ => None,
            },
        }
    }

    /// [`BilateralArbStrategy::evaluate_market`], unless a figure overflows.
    pub fn try_evaluate_market(&self, market_id: &str, books: &StringMap<BookState>) -> (r: Checked<
        Option<ArbOpportunity>,
    >)
        ensures
            match r {
                Checked::Overflow => !market_defined(
                    self.index(),
                    self.config(),
                    market_id@,
                    books@,
                ),
                Checked::Value(Some(o)) => market_opportunity(
                    self.index(),
                    self.config(),
                    market_id@,
                    books@,
                    o@.detected_at,
                ) == Some(o@),
                Checked::Value(None) => market_defined(
                    self.index(),
                    self.config(),
                    market_id@,
                    books@,
                ) && forall|now: int| #[trigger]
                    market_opportunity(self.index(), self.config(), market_id@, books@, now)
                        is None,
            },
            market_is_exact(self.index(), self.config(), market_id@, books@),
    {
        if self.is_market_defined(market_id, books) {
            Checked::Value(self.evaluate_market(market_id, books))
        } else {
            Checked::Overflow
        }
    }

    /// The market of every asset.
    pub fn tracked_assets(&self) -> (r: StringMap<String>)
        ensures
            text_map(r@) == self.index().asset_to_market,
    {
        self.index.tracked_assets()
    }
}

/// A market with both its books.
pub open spec fn market_books(
    index: IndexView,
    market_id: Seq<char>,
    books: Map<Seq<char>, BookState>,
) -> Option<(MarketView, BookView, BookView)> {
    match index.lookup(market_id) {
        Some((market, a, b)) => if books.contains_key(a) && books.contains_key(b) {
            Some((market, books[a]@, books[b]@))
        } else {
            None
        },
        None => None,
    }
}

/// A market can be evaluated without overflow.
pub open spec fn market_defined(
    index: IndexView,
    cfg: BilateralView,
    market_id: Seq<char>,
    books: Map<Seq<char>, BookState>,
) -> bool {
    match market_books(index, market_id, books) {
        Some((_, book_a, book_b)) => bilateral_defined(book_a, book_b, cfg),
        None => true,
    }
}

/// The edge that a market offers is exact, and so are the products with it.
pub open spec fn market_is_exact(
    index: IndexView,
    cfg: BilateralView,
    market_id: Seq<char>,
    books: Map<Seq<char>, BookState>,
) -> bool {
    match market_books(index, market_id, books) {
        Some((_, book_a, book_b)) => offer_is_exact(
            book_a.ask(),
            book_b.ask(),
            cfg.fee_rate_bps,
            cfg.slippage_buffer_bps,
        ) && products_are_exact(book_a.ask(), book_b.ask(), cfg),
        None => true,
    }
}

/// The opportunity that a market offers at `now`.
pub open spec fn market_opportunity(
    index: IndexView,
    cfg: BilateralView,
    market_id: Seq<char>,
    books: Map<Seq<char>, BookState>,
    now: int,
) -> Option<ArbOpportunityView> {
    match market_books(index, market_id, books) {
        Some((market, book_a, book_b)) => bilateral_opportunity(market, book_a, book_b, cfg, now),
        None => None,
    }
}

/// Law: the edge is worked out from the dollar that one of the outcomes pays: less the sum
/// of both asks and of the fee on a share of each, and less the slippage buffer over ten
/// thousand.
pub proof fn edge_goes_by_asks_fees_and_slippage(
    price_a: Num,
    price_b: Num,
    fee_rate_bps: int,
    slippage_buffer_bps: int,
)
    ensures
        ({
            let fee_a = fee_per_share(price_a, fee_rate_bps);
            let fee_b = fee_per_share(price_b, fee_rate_bps);
            let asks = decimal_sum(price_a, price_b);
            let with_a = decimal_sum(asks->0, fee_a->0);
            let cost = decimal_sum(with_a->0, fee_b->0);
            let left = decimal_difference(Num { mant: 1, scale: 0 }, cost->0);
            let slippage = decimal_quotient(
                Num { mant: slippage_buffer_bps, scale: 0 },
                Num { mant: 10000, scale: 0 },
            );
            let all = fee_a is Some && fee_b is Some && asks is Some && with_a is Some && cost
                is Some && left is Some && slippage is Some;
            &&& all ==> net_edge(price_a, price_b, fee_rate_bps, slippage_buffer_bps)
                == decimal_difference(left->0, slippage->0)
            &&& !all ==> net_edge(price_a, price_b, fee_rate_bps, slippage_buffer_bps) is None
        }),
{
}

} // verus!
