//! Strategy C: strategy B, with the exchange price as a check.
//!
//! Every candidate comes out of the filters of B. Before C enters it holds the
//! price of the market against a model of the exchange price: if they are
//! further apart than the tolerance, the offer is taken for a phantom and C
//! skips it while B goes on. So C enters only where B does.
//!
//! The model works in floating point, outside this module. An evaluation
//! therefore comes in two steps: [`evaluate`] either decides or says that the
//! model is needed, and [`conclude`] decides on what the model says.

use crate::bilateral::market_books;
use crate::book_state::{BookState, BookView};
use crate::cex_feed::{CexState, CexView, cex_map};
use crate::decimal::Checked;
use crate::double::Double;
use crate::market_index::{IndexView, MarketIndex, text_map};
use crate::pricing_model::{
    MARKET_SECONDS, close_of_slug, parse_unix_close_from_slug, product_id_from_slug,
    product_of_slug, strike_time_for_5m_market,
};
use crate::strategies::bilateral_pure::{
    self, BilateralPureConfig, PureView, pure_decision, pure_defined, pure_entry_is_sound,
};
use crate::strategies::lag_arb::products_with;
use crate::strategies::{Decision, DecisionKind, DecisionView, skip_reasons};
use crate::string_map::StringMap;
use crate::timestamp::{Timestamp, in_range, later, millis_between, seconds_between};
use crate::types::{Market, MarketView};
use vstd::prelude::*;

verus! {

/// The filters of B and the tolerance of C.
#[derive(Debug, Clone, Copy)]
pub struct HybridConfig {
    pub bilateral: BilateralPureConfig,
    /// How far the market may be from the model.
    pub cex_tolerance: Double,
}

/// What a [`HybridConfig`] says.
pub struct HybridView {
    pub bilateral: PureView,
    pub cex_tolerance: Double,
}

impl View for HybridConfig {
    type V = HybridView;

    open spec fn view(&self) -> HybridView {
        HybridView { bilateral: self.bilateral@, cex_tolerance: self.cex_tolerance }
    }
}

/// How far an evaluation came without the model.
pub enum HybridStep {
    /// The decision is taken.
    Done(Decision),
    /// The model is needed for the spot and the strike that the decision notes.
    NeedsModel(Decision),
}

/// What a [`HybridStep`] says.
pub enum StepView {
    Done(DecisionView),
    NeedsModel(DecisionView),
}

impl View for HybridStep {
    type V = StepView;

    open spec fn view(&self) -> StepView {
        match self {
            HybridStep::Done(d) => StepView::Done(d@),
            HybridStep::NeedsModel(d) => StepView::NeedsModel(d@),
        }
    }
}

impl StepView {
    /// The decision so far.
    pub open spec fn decision(self) -> DecisionView {
        match self {
            StepView::Done(d) => d,
            StepView::NeedsModel(d) => d,
        }
    }
}

/// What the model says of an offer.
#[derive(Debug, Clone, Copy)]
pub struct ModelReading {
    /// The annual volatility that it went by.
    pub sigma_annual: Double,
    /// The probability of YES, and what it is above the one that the market
    /// implies; absent where the model does not apply.
    pub probability: Option<(Double, Double)>,
}

/// The evaluation of two books at `now`, up to the model; nothing where a figure
/// overflows.
pub open spec fn hybrid_step(
    market: MarketView,
    book_a: BookView,
    book_b: BookView,
    cex: Map<Seq<char>, CexView>,
    strikes: Map<Seq<char>, Double>,
    cfg: HybridView,
    now: int,
) -> Option<StepView> {
    match pure_decision(market, book_a, book_b, cfg.bilateral, now) {
        None => None,
        Some(b) => {
            let d = DecisionView { strategy: "C"@, ..b };
            if d.decision == DecisionKind::Skip {
                Some(StepView::Done(d))
            } else {
                Some(step_on_product(d, product_of_slug(market.slug), market, cex, strikes))
            }
        },
    }
}

/// The evaluation of an offer that B would take, by what is known of the product
/// that the market follows. Without product, spot or strike C trusts B.
pub open spec fn step_on_product(
    d: DecisionView,
    product: Option<Seq<char>>,
    market: MarketView,
    cex: Map<Seq<char>, CexView>,
    strikes: Map<Seq<char>, Double>,
) -> StepView {
    match product {
        None => StepView::Done(d),
        Some(p) => {
            let named = DecisionView { cex_product: Some(p), ..d };
            if !cex.contains_key(p) || cex[p].last_price is None {
                StepView::Done(named)
            } else {
                let spotted = DecisionView { cex_spot: cex[p].last_price, ..named };
                if !strikes.contains_key(market.condition_id) {
                    StepView::Done(spotted)
                } else {
                    StepView::NeedsModel(
                        DecisionView {
                            cex_strike: Some(strikes[market.condition_id]),
                            ..spotted
                        },
                    )
                }
            }
        },
    }
}

/// The decision on an offer that B would take, by what the model says. Where it
/// does not apply, or nobody knows when the market ends, C trusts B.
pub open spec fn conclusion(
    d: DecisionView,
    market_ends: bool,
    reading: ModelReading,
    tolerance: Double,
) -> DecisionView {
    let noted = DecisionView { cex_sigma_annual: Some(reading.sigma_annual), ..d };
    match reading.probability {
        Some((p_model, edge)) => if market_ends {
            let compared = DecisionView {
                p_model_yes: Some(p_model),
                cex_edge: Some(edge),
                ..noted
            };
            if tolerance.below(edge.absolute()) {
                DecisionView {
                    decision: DecisionKind::Skip,
                    skip_reason: Some(skip_reasons::CEX_DISAGREES@),
                    ..compared
                }
            } else {
                compared
            }
        } else {
            noted
        },
        None => noted,
    }
}

/// Evaluates two books at `now`, up to the model.
pub fn evaluate_at(
    market: &Market,
    book_a: &BookState,
    book_b: &BookState,
    cex_state: &StringMap<CexState>,
    strike_cache: &StringMap<Double>,
    cfg: &HybridConfig,
    now: Timestamp,
) -> (r: HybridStep)
    requires
        pure_decision(market@, book_a@, book_b@, cfg.bilateral@, now@) is Some,
    ensures
        hybrid_step(
            market@,
            book_a@,
            book_b@,
            cex_map(cex_state@),
            strike_cache@,
            cfg@,
            now@,
        ) == Some(r@),
        r@.decision().timestamp == now@,
        pure_entry_is_sound(r@.decision(), cfg.bilateral@),
{
    let b = bilateral_pure::evaluate_at(market, book_a, book_b, &cfg.bilateral, now);
    let mut d = b;
    d.strategy = "C".to_string();
    if d.decision == DecisionKind::Skip {
        return HybridStep::Done(d);
    }
    let product = match product_id_from_slug(market.slug.as_str()) {
        Some(p) => p,
        None => return HybridStep::Done(d),
    };
    d.cex_product = Some(product.to_string());
    let spot = match cex_state.get(product) {
        Some(cex) => cex.last_price(),
        None => None,
    };
    if spot.is_none() {
        return HybridStep::Done(d);
    }
    d.cex_spot = spot;
    match strike_cache.get(market.condition_id.as_str()) {
        Some(strike) => {
            d.cex_strike = Some(*strike);
            HybridStep::NeedsModel(d)
        },
        None => HybridStep::Done(d),
    }
}

/// Evaluates two books now, up to the model.
pub fn evaluate(
    market: &Market,
    book_a: &BookState,
    book_b: &BookState,
    cex_state: &StringMap<CexState>,
    strike_cache: &StringMap<Double>,
    cfg: &HybridConfig,
) -> (r: HybridStep)
    requires
        pure_defined(market@, book_a@, book_b@, cfg.bilateral@),
    ensures
        hybrid_step(
            market@,
            book_a@,
            book_b@,
            cex_map(cex_state@),
            strike_cache@,
            cfg@,
            r@.decision().timestamp,
        ) == Some(r@),
        pure_entry_is_sound(r@.decision(), cfg.bilateral@),
{
    let now = Timestamp::now();
    proof {
        bilateral_pure::pure_defined_at_any_time(
            market@,
            book_a@,
            book_b@,
            cfg.bilateral@,
            now@,
        );
    }
    evaluate_at(market, book_a, book_b, cex_state, strike_cache, cfg, now)
}

/// Decides on what the model says.
pub fn conclude(
    pending: Decision,
    market_ends: bool,
    reading: &ModelReading,
    tolerance: Double,
) -> (r: Decision)
    ensures
        r@ == conclusion(pending@, market_ends, *reading, tolerance),
{
    let mut d = pending;
    d.cex_sigma_annual = Some(reading.sigma_annual);
    if !market_ends {
        return d;
    }
    if let Some((p_model, edge)) = reading.probability {
        d.p_model_yes = Some(p_model);
        d.cex_edge = Some(edge);
        if tolerance.less_than(edge.abs()) {
            d.decision = DecisionKind::Skip;
            d.skip_reason = Some(skip_reasons::CEX_DISAGREES.to_string());
        }
    }
    d
}

/// Milliseconds until a market ends, if it is known when.
pub fn millis_to_close(market: &Market, now: Timestamp) -> (r: Option<i64>)
    ensures
        match r {
            Some(ms) => market@.end_date matches Some(end) && ms == millis_between(now@, end),
            None => market@.end_date is None,
        },
{
    match market.end_date {
        Some(end) => Some(end.millis_since(&now)),
        None => None,
    }
}

/// Law: C enters only where B does, at the same prices and in the same size,
/// whatever the model says.
pub proof fn hybrid_enters_only_where_pure_does(
    market: MarketView,
    book_a: BookView,
    book_b: BookView,
    cex: Map<Seq<char>, CexView>,
    strikes: Map<Seq<char>, Double>,
    cfg: HybridView,
    now: int,
    market_ends: bool,
    reading: ModelReading,
)
    ensures
        hybrid_step(market, book_a, book_b, cex, strikes, cfg, now) matches Some(step) ==> {
            let d = match step {
                StepView::Done(d) => d,
                StepView::NeedsModel(d) => conclusion(d, market_ends, reading, cfg.cex_tolerance),
            };
            d.decision == DecisionKind::Enter ==> {
                let b = pure_decision(market, book_a, book_b, cfg.bilateral, now)->0;
                &&& pure_decision(market, book_a, book_b, cfg.bilateral, now) is Some
                &&& b.decision == DecisionKind::Enter
                &&& b.price_yes == d.price_yes
                &&& b.price_no == d.price_no
                &&& b.size_usdc == d.size_usdc
                &&& b.edge_per_unit == d.edge_per_unit
                &&& b.expected_pnl_usdc == d.expected_pnl_usdc
                &&& b.direction == d.direction
            }
        },
{
}

/// Law: where B enters, C does too unless the model is further from the market
/// than the tolerance.
pub proof fn hybrid_vetoes_only_on_disagreement(
    market: MarketView,
    book_a: BookView,
    book_b: BookView,
    cex: Map<Seq<char>, CexView>,
    strikes: Map<Seq<char>, Double>,
    cfg: HybridView,
    now: int,
    market_ends: bool,
    reading: ModelReading,
)
    requires
        pure_decision(market, book_a, book_b, cfg.bilateral, now) matches Some(b) && b.decision
            == DecisionKind::Enter,
    ensures
        hybrid_step(market, book_a, book_b, cex, strikes, cfg, now) matches Some(step) && {
            let d = match step {
                StepView::Done(d) => d,
                StepView::NeedsModel(d) => conclusion(d, market_ends, reading, cfg.cex_tolerance),
            };
            d.decision == DecisionKind::Skip ==> {
                &&& step is NeedsModel
                &&& reading.probability matches Some((_, edge)) && cfg.cex_tolerance.below(
                    edge.absolute(),
                )
                &&& d.skip_reason == Some(skip_reasons::CEX_DISAGREES@)
            }
        },
{
}

/// The strikes after one was set.
pub open spec fn strikes_with(
    strikes: Map<Seq<char>, Double>,
    market_id: Seq<char>,
    strike: Option<Double>,
) -> Map<Seq<char>, Double> {
    match strike {
        Some(k) => strikes.insert(market_id, k),
        None => strikes,
    }
}

/// The strike of a market at `now`: the one set before, or the last exchange
/// price where the market opened less than thirty seconds ago.
pub open spec fn strike_of(
    strikes: Map<Seq<char>, Double>,
    index: IndexView,
    products: Map<Seq<char>, Seq<char>>,
    cex: Map<Seq<char>, CexView>,
    market_id: Seq<char>,
    now: int,
) -> Option<Double> {
    if strikes.contains_key(market_id) {
        Some(strikes[market_id])
    } else if index.markets.contains_key(market_id) && products.contains_key(market_id)
        && cex.contains_key(products[market_id]) && close_of_slug(index.markets[market_id].slug)
        is Some {
        match (cex[products[market_id]].last_price, index.markets[market_id].end_date) {
            (Some(last), Some(end)) => {
                let elapsed = seconds_between(later(end, -MARKET_SECONDS), now);
                if 0 <= elapsed < 30 {
                    Some(last)
                } else {
                    None
                }
            },
            _ => None,
        }
    } else {
        None
    }
}

/// Strategy C over the markets that it was told of.
pub struct HybridStrategy {
    cfg: HybridConfig,
    index: MarketIndex,
    strike_cache: StringMap<Double>,
    product_required: StringMap<String>,
}

impl HybridStrategy {
    /// The filters and the tolerance.
    pub closed spec fn config(self) -> HybridView {
        self.cfg@
    }

    /// The markets.
    pub closed spec fn index(self) -> IndexView {
        self.index@
    }

    /// The strikes that were set.
    pub closed spec fn strikes(self) -> Map<Seq<char>, Double> {
        self.strike_cache@
    }

    /// The product that each market follows.
    pub closed spec fn products(self) -> Map<Seq<char>, Seq<char>> {
        text_map(self.product_required@)
    }

    /// A strategy without markets.
    pub fn new(cfg: HybridConfig) -> (r: HybridStrategy)
        ensures
            r.config() == cfg@,
            r.index() == IndexView::empty(),
            r.strikes() == Map::<Seq<char>, Double>::empty(),
            r.products() == Map::<Seq<char>, Seq<char>>::empty(),
    {
        let r = HybridStrategy {
            cfg,
            index: MarketIndex::new(),
            strike_cache: StringMap::new(),
            product_required: StringMap::new(),
        };
        assert(r.products() =~= Map::<Seq<char>, Seq<char>>::empty());
        r
    }

    /// Adds a market.
    pub fn register_market(&mut self, market: Market)
        ensures
            final(self).config() == old(self).config(),
            final(self).index() == old(self).index().with(market@),
            final(self).products() == products_with(old(self).products(), market@),
            final(self).strikes() == old(self).strikes(),
    {
        if let Some(product) = product_id_from_slug(market.slug.as_str()) {
            self.product_required.insert(market.condition_id.clone(), product.to_string());
        }
        assert(self.products() =~= products_with(old(self).products(), market@));
        self.index.register(market);
    }

    /// The market of an asset.
    pub fn market_id_for_asset(&self, asset_id: &str) -> (r: Option<&str>)
        ensures
            match r {
                Some(id) => self.index().market_of(asset_id@) == Some(id@),
                None => self.index().market_of(asset_id@) is None,
            },
    {
        self.index.market_id_for_asset(asset_id)
    }

    /// The strikes that were set.
    pub fn strike_cache(&self) -> (r: &StringMap<Double>)
        ensures
            r@ == self.strikes(),
    {
        &self.strike_cache
    }

    /// The tolerance.
    pub fn cex_tolerance(&self) -> (r: Double)
        ensures
            r == self.config().cex_tolerance,
    {
        self.cfg.cex_tolerance
    }

    /// The strike of a market at `now`. One that is found is kept.
    pub fn try_compute_strike_at(
        &mut self,
        market_id: &str,
        cex_state: &StringMap<CexState>,
        now: Timestamp,
    ) -> (r: Option<Double>)
        ensures
            r == strike_of(
                old(self).strikes(),
                old(self).index(),
                old(self).products(),
                cex_map(cex_state@),
                market_id@,
                now@,
            ),
            final(self).strikes() == strikes_with(old(self).strikes(), market_id@, r),
            final(self).config() == old(self).config(),
            final(self).index() == old(self).index(),
            final(self).products() == old(self).products(),
    {
        if let Some(k) = self.strike_cache.get(market_id) {
            let strike: Double = *k;
            assert(old(self).strikes() =~= old(self).strikes().insert(market_id@, strike));
            return Some(strike);
        }
        let market = match self.index.get(market_id) {
            Some(m) => m,
            None => return None,
        };
        let product = match self.product_required.get(market_id) {
            Some(p) => p,
            None => return None,
        };
        let last = match cex_state.get(product.as_str()) {
            Some(cex) => match cex.last_price() {
                Some(p) => p,
                None => return None,
            },
            None => return None,
        };
        let unix_close = match parse_unix_close_from_slug(market.slug.as_str()) {
            Some(c) => c,
            None => return None,
        };
        let _ = strike_time_for_5m_market(unix_close);
        let end = match market.end_date {
            Some(e) => e,
            None => return None,
        };
        let elapsed: i64 = now.seconds_since_before(&end, 300);
        if elapsed < 0 || elapsed > MARKET_SECONDS {
            return None;
        }
        if elapsed < 30 {
            self.strike_cache.insert(market_id.to_string(), last);
            return Some(last);
        }
        None
    }

    /// The strike of a market now. One that is found is kept.
    pub fn try_compute_strike(
        &mut self,
        market_id: &str,
        cex_state: &StringMap<CexState>,
    ) -> (r: Option<Double>)
        ensures
            exists|now: int|
                in_range(now) && r == #[trigger] strike_of(
                    old(self).strikes(),
                    old(self).index(),
                    old(self).products(),
                    cex_map(cex_state@),
                    market_id@,
                    now,
                ),
            final(self).strikes() == strikes_with(old(self).strikes(), market_id@, r),
            final(self).config() == old(self).config(),
            final(self).index() == old(self).index(),
            final(self).products() == old(self).products(),
    {
        let now = Timestamp::now();
        self.try_compute_strike_at(market_id, cex_state, now)
    }

    /// Whether a market can be evaluated without overflow, whatever the time.
    pub fn is_market_defined(&self, market_id: &str, books: &StringMap<BookState>) -> (r: bool)
        ensures
            r == bilateral_pure::pure_market_defined(
                self.index(),
                self.config().bilateral,
                market_id@,
                books@,
            ),
    {
        match self.index.find(market_id) {
            None => true,
            Some((market, a, b)) => match (books.get(a), books.get(b)) {
                (Some(book_a), Some(book_b)) => bilateral_pure::is_pure_defined(
                    market,
                    book_a,
                    book_b,
                    &self.cfg.bilateral,
                ),
                _ => true,
            },
        }
    }

    /// Whether a figure in the decision on a market at `now` overflows.
    pub fn overflows_at(&self, market_id: &str, books: &StringMap<BookState>, now: Timestamp) -> (r:
        bool)
        ensures
            r == bilateral_pure::pure_market_overflows(
                self.index(),
                self.config().bilateral,
                market_id@,
                books@,
                now@,
            ),
    {
        match self.index.find(market_id) {
            None => false,
            Some((market, a, b)) => match (books.get(a), books.get(b)) {
                (Some(book_a), Some(book_b)) => bilateral_pure::checked_evaluate_at(
                    market,
                    book_a,
                    book_b,
                    &self.cfg.bilateral,
                    now,
                ).is_none(),
                _ => false,
            },
        }
    }

    /// Sets the strike of a market where it can be, and evaluates the market now,
    /// up to the model, if it and both its books are known.
    pub fn evaluate_market(
        &mut self,
        market_id: &str,
        books: &StringMap<BookState>,
        cex_state: &StringMap<CexState>,
    ) -> (r: Option<HybridStep>)
        requires
            bilateral_pure::pure_market_defined(
                old(self).index(),
                old(self).config().bilateral,
                market_id@,
                books@,
            ),
        ensures
            final(self).config() == old(self).config(),
            final(self).index() == old(self).index(),
            final(self).products() == old(self).products(),
            exists|now: int|
                in_range(now) && final(self).strikes() == strikes_with(
                    old(self).strikes(),
                    market_id@,
                    #[trigger] strike_of(
                        old(self).strikes(),
                        old(self).index(),
                        old(self).products(),
                        cex_map(cex_state@),
                        market_id@,
                        now,
                    ),
                ),
            match (r, market_books(old(self).index(), market_id@, books@)) {
                (Some(step), Some((market, book_a, book_b))) => hybrid_step(
                    market,
                    book_a,
                    book_b,
                    cex_map(cex_state@),
                    final(self).strikes(),
                    old(self).config(),
                    step@.decision().timestamp,
                ) == Some(step@),
                (None, None) => true,
                _ => false,
            },
    {
        let _ = self.try_compute_strike(market_id, cex_state);
        match self.index.find(market_id) {
            None => None,
            Some((market, a, b)) => match (books.get(a), books.get(b)) {
                (Some(book_a), Some(book_b)) => Some(
                    evaluate(market, book_a, book_b, cex_state, &self.strike_cache, &self.cfg),
                ),
                _ => None,
            },
        }
    }

    /// [`HybridStrategy::evaluate_market`], unless a figure in the decision
    /// overflows at the time at which it is taken; then nothing changes.
    pub fn try_evaluate_market(
        &mut self,
        market_id: &str,
        books: &StringMap<BookState>,
        cex_state: &StringMap<CexState>,
    ) -> (r: Checked<Option<HybridStep>>)
        ensures
            final(self).config() == old(self).config(),
            final(self).index() == old(self).index(),
            final(self).products() == old(self).products(),
            r is Value ==> exists|now: int|
                in_range(now) && final(self).strikes() == strikes_with(
                    old(self).strikes(),
                    market_id@,
                    #[trigger] strike_of(
                        old(self).strikes(),
                        old(self).index(),
                        old(self).products(),
                        cex_map(cex_state@),
                        market_id@,
                        now,
                    ),
                ),
            match (r, market_books(old(self).index(), market_id@, books@)) {
                (Checked::Overflow, _) => final(self).strikes() == old(self).strikes() && exists|
                    now: int,
                |
                    in_range(now) && #[trigger] bilateral_pure::pure_market_overflows(
                        old(self).index(),
                        old(self).config().bilateral,
                        market_id@,
                        books@,
                        now,
                    ),
                (Checked::Value(Some(step)), Some((market, book_a, book_b))) => hybrid_step(
                    market,
                    book_a,
                    book_b,
                    cex_map(cex_state@),
                    final(self).strikes(),
                    old(self).config(),
                    step@.decision().timestamp,
                ) == Some(step@),
                (Checked::Value(None), None) => true,
                _ => false,
            },
    {
        if self.is_market_defined(market_id, books) {
            return Checked::Value(self.evaluate_market(market_id, books, cex_state));
        }
        let now = Timestamp::now();
        if self.overflows_at(market_id, books, now) {
            return Checked::Overflow;
        }
        let _ = self.try_compute_strike_at(market_id, cex_state, now);
        match self.index.find(market_id) {
            None => Checked::Value(None),
            Some((market, a, b)) => match (books.get(a), books.get(b)) {
                (Some(book_a), Some(book_b)) => Checked::Value(
                    Some(
                        evaluate_at(
                            market,
                            book_a,
                            book_b,
                            cex_state,
                            &self.strike_cache,
                            &self.cfg,
                            now,
                        ),
                    ),
                ),
                _ => Checked::Value(None),
            },
        }
    }

    /// Decides on what the model says.
    pub fn conclude_market(
        &self,
        pending: Decision,
        market_ends: bool,
        reading: &ModelReading,
    ) -> (r: Decision)
        ensures
            r@ == conclusion(pending@, market_ends, *reading, self.config().cex_tolerance),
    {
        conclude(pending, market_ends, reading, self.cfg.cex_tolerance)
    }

    /// A market.
    pub fn market(&self, market_id: &str) -> (r: Option<&Market>)
        ensures
            match r {
                Some(m) => self.index().markets.contains_key(market_id@)
                    && self.index().markets[market_id@] == m@,
                None => !self.index().markets.contains_key(market_id@),
            },
    {
        self.index.get(market_id)
    }

    /// The market of every asset.
    pub fn tracked_assets(&self) -> (r: StringMap<String>)
        ensures
            text_map(r@) == self.index().asset_to_market,
    {
        self.index.tracked_assets()
    }
}

/// Law: a strike that was set stays as it is.
pub proof fn strike_stays(
    strikes: Map<Seq<char>, Double>,
    index: IndexView,
    products: Map<Seq<char>, Seq<char>>,
    cex: Map<Seq<char>, CexView>,
    market_id: Seq<char>,
    now: int,
    later_index: IndexView,
    later_products: Map<Seq<char>, Seq<char>>,
    later_cex: Map<Seq<char>, CexView>,
    later: int,
)
    requires
        strike_of(strikes, index, products, cex, market_id, now) is Some,
    ensures
        strike_of(
            strikes_with(
                strikes,
                market_id,
                strike_of(strikes, index, products, cex, market_id, now),
            ),
            later_index,
            later_products,
            later_cex,
            market_id,
            later,
        ) == strike_of(strikes, index, products, cex, market_id, now),
{
}

/// Law: up to the model, C says what B says, under its own name. Where B enters, C notes
/// the product that the slug names, its last price and the strike of the market, as far as
/// there are any, and asks the model just where there are all three.
pub proof fn steps_follow_b_and_note_the_exchange(
    market: MarketView,
    book_a: BookView,
    book_b: BookView,
    cex: Map<Seq<char>, CexView>,
    strikes: Map<Seq<char>, Double>,
    cfg: HybridView,
    now: int,
)
    ensures
        ({
            let pure = pure_decision(market, book_a, book_b, cfg.bilateral, now);
            let b = pure->0;
            let step = hybrid_step(market, book_a, book_b, cex, strikes, cfg, now);
            let entering = b.decision == DecisionKind::Enter;
            let product = product_of_slug(market.slug);
            let spot = cex[product->0].last_price;
            let named = entering && product is Some;
            let spotted = named && cex.contains_key(product->0) && spot is Some;
            let struck = spotted && strikes.contains_key(market.condition_id);
            &&& step is None <==> pure is None
            &&& pure is Some ==> {
                let d = match step->0 {
                    StepView::Done(d) => d,
                    StepView::NeedsModel(d) => d,
                };
                &&& step->0 is NeedsModel <==> struck
                &&& d.strategy == "C"@
                &&& named ==> d.cex_product == product
                &&& !named ==> d.cex_product is None
                &&& spotted ==> d.cex_spot == spot
                &&& !spotted ==> d.cex_spot is None
                &&& struck ==> d.cex_strike == Some(strikes[market.condition_id])
                &&& !struck ==> d.cex_strike is None
                &&& d.decision == b.decision
                &&& d.skip_reason == b.skip_reason
                &&& d.timestamp == now
                &&& d.market_id == market.condition_id
                &&& d.market_slug == market.slug
                &&& d.yes_token_id == market.yes_token_id
                &&& d.no_token_id == market.no_token_id
                &&& d.neg_risk == market.neg_risk
                &&& d.price_yes == b.price_yes
                &&& d.price_no == b.price_no
                &&& d.sum_ask == b.sum_ask
                &&& d.size_yes_available == b.size_yes_available
                &&& d.size_no_available == b.size_no_available
                &&& d.ttr_seconds == b.ttr_seconds
                &&& d.direction == b.direction
                &&& d.size_usdc == b.size_usdc
                &&& d.edge_per_unit == b.edge_per_unit
                &&& d.expected_pnl_usdc == b.expected_pnl_usdc
                &&& d.cex_sigma_annual is None
                &&& d.p_model_yes is None
                &&& d.cex_edge is None
            }
        }),
{
}

/// Law: the model turns an entry into a skip just where the market is known to end, the
/// model applies, and it is further from the market than the tolerance, above or below.
/// What it says is noted; nothing else changes.
pub proof fn only_disagreement_turns_an_entry(
    d: DecisionView,
    market_ends: bool,
    reading: ModelReading,
    tolerance: Double,
)
    ensures
        ({
            let c = conclusion(d, market_ends, reading, tolerance);
            let compared = market_ends && reading.probability is Some;
            let (p_model, edge) = reading.probability->0;
            let vetoed = compared && tolerance.below(edge.absolute());
            &&& c.decision == DecisionKind::Skip <==> d.decision == DecisionKind::Skip || vetoed
            &&& vetoed ==> c.skip_reason == Some("cex_disagrees"@)
            &&& !vetoed ==> c.skip_reason == d.skip_reason
            &&& c.cex_sigma_annual == Some(reading.sigma_annual)
            &&& compared ==> c.p_model_yes == Some(p_model) && c.cex_edge == Some(edge)
            &&& !compared ==> c.p_model_yes == d.p_model_yes && c.cex_edge == d.cex_edge
            &&& c.strategy == d.strategy
            &&& c.timestamp == d.timestamp
            &&& c.market_id == d.market_id
            &&& c.market_slug == d.market_slug
            &&& c.yes_token_id == d.yes_token_id
            &&& c.no_token_id == d.no_token_id
            &&& c.neg_risk == d.neg_risk
            &&& c.price_yes == d.price_yes
            &&& c.price_no == d.price_no
            &&& c.sum_ask == d.sum_ask
            &&& c.size_yes_available == d.size_yes_available
            &&& c.size_no_available == d.size_no_available
            &&& c.ttr_seconds == d.ttr_seconds
            &&& c.cex_product == d.cex_product
            &&& c.cex_spot == d.cex_spot
            &&& c.cex_strike == d.cex_strike
            &&& c.direction == d.direction
            &&& c.size_usdc == d.size_usdc
            &&& c.edge_per_unit == d.edge_per_unit
            &&& c.expected_pnl_usdc == d.expected_pnl_usdc
        }),
{
}

/// Law: a market has a strike where one was set before. Where none was, it gets the last
/// exchange price of its product in the first thirty seconds of the five minutes before
/// its end, and at no other time; its slug must end in a close.
pub proof fn strikes_are_set_as_the_market_opens(
    strikes: Map<Seq<char>, Double>,
    index: IndexView,
    products: Map<Seq<char>, Seq<char>>,
    cex: Map<Seq<char>, CexView>,
    market_id: Seq<char>,
    now: int,
)
    ensures
        ({
            let k = strike_of(strikes, index, products, cex, market_id, now);
            let market = index.markets[market_id];
            let last = cex[products[market_id]].last_price;
            let elapsed = seconds_between(later(market.end_date->0, -300), now);
            let opening = {
                &&& index.markets.contains_key(market_id)
                &&& products.contains_key(market_id)
                &&& cex.contains_key(products[market_id])
                &&& last is Some
                &&& close_of_slug(market.slug) is Some
                &&& market.end_date is Some
                &&& 0 <= elapsed
                &&& elapsed < 30
            };
            &&& strikes.contains_key(market_id) ==> k == Some(strikes[market_id])
            &&& !strikes.contains_key(market_id) && opening ==> k == last
            &&& !strikes.contains_key(market_id) && !opening ==> k is None
        }),
{
}

/// Law: a strike is kept under its own market; without one nothing is.
pub proof fn strikes_are_kept_by_market(
    strikes: Map<Seq<char>, Double>,
    market_id: Seq<char>,
    strike: Option<Double>,
    other: Seq<char>,
)
    ensures
        ({
            let kept = strikes_with(strikes, market_id, strike);
            &&& strike matches Some(k) ==> kept.contains_key(market_id) && kept[market_id] == k
            &&& strike is None ==> kept == strikes
            &&& other != market_id ==> kept.contains_key(other) == strikes.contains_key(other)
                && kept[other] == strikes[other]
        }),
{
}

} // verus!
