//! The three strategies that run side by side.
//!
//! - A, [`lag_arb`]: follows the momentum of the exchange price.
//! - B, [`bilateral_pure`]: buys both outcomes where they cost less than they pay.
//! - C, [`hybrid`]: B, unless the exchange price says the offer is a phantom.
//!
//! Each takes a [`Decision`] on every book update: to enter, or to skip and why.

use crate::decimal::{Decimal, Num, whole_num};
use crate::double::Double;
use crate::text::text_option;
use crate::timestamp::{Timestamp, seconds_between};
use crate::types::{Market, MarketView};
use vstd::prelude::*;

pub mod bilateral_pure;
pub mod hybrid;
pub mod lag_arb;
pub mod skip_reasons;

verus! {

/// To enter or not.
#[derive(Debug, Clone, Copy, PartialEq, Eq, Structural)]
pub enum DecisionKind {
    Enter,
    Skip,
}

/// What a strategy decided on a book update.
#[derive(Debug)]
pub struct Decision {
    pub strategy: String,
    pub timestamp: Timestamp,
    pub market_id: String,
    pub market_slug: String,
    pub decision: DecisionKind,
    pub skip_reason: Option<String>,
    pub yes_token_id: String,
    pub no_token_id: String,
    pub price_yes: Decimal,
    pub price_no: Decimal,
    pub sum_ask: Decimal,
    pub size_yes_available: Decimal,
    pub size_no_available: Decimal,
    pub ttr_seconds: Option<i64>,
    pub neg_risk: bool,
    pub cex_product: Option<String>,
    pub cex_spot: Option<Double>,
    pub cex_strike: Option<Double>,
    pub cex_sigma_annual: Option<Double>,
    pub p_model_yes: Option<Double>,
    pub cex_edge: Option<Double>,
    pub direction: Option<String>,
    pub size_usdc: Decimal,
    pub edge_per_unit: Decimal,
    pub expected_pnl_usdc: Decimal,
}

/// What a [`Decision`] says.
pub struct DecisionView {
    pub strategy: Seq<char>,
    pub timestamp: int,
    pub market_id: Seq<char>,
    pub market_slug: Seq<char>,
    pub decision: DecisionKind,
    pub skip_reason: Option<Seq<char>>,
    pub yes_token_id: Seq<char>,
    pub no_token_id: Seq<char>,
    pub price_yes: Num,
    pub price_no: Num,
    pub sum_ask: Num,
    pub size_yes_available: Num,
    pub size_no_available: Num,
    pub ttr_seconds: Option<int>,
    pub neg_risk: bool,
    pub cex_product: Option<Seq<char>>,
    pub cex_spot: Option<Double>,
    pub cex_strike: Option<Double>,
    pub cex_sigma_annual: Option<Double>,
    pub p_model_yes: Option<Double>,
    pub cex_edge: Option<Double>,
    pub direction: Option<Seq<char>>,
    pub size_usdc: Num,
    pub edge_per_unit: Num,
    pub expected_pnl_usdc: Num,
}

/// The view of an optional integer.
pub open spec fn integer_option(i: Option<i64>) -> Option<int> {
    match i {
        Some(x) => Some(x as int),
        None => None,
    }
}

impl View for Decision {
    type V = DecisionView;

    open spec fn view(&self) -> DecisionView {
        DecisionView {
            strategy: self.strategy@,
            timestamp: self.timestamp@,
            market_id: self.market_id@,
            market_slug: self.market_slug@,
            decision: self.decision,
            skip_reason: text_option(self.skip_reason),
            yes_token_id: self.yes_token_id@,
            no_token_id: self.no_token_id@,
            price_yes: self.price_yes@,
            price_no: self.price_no@,
            sum_ask: self.sum_ask@,
            size_yes_available: self.size_yes_available@,
            size_no_available: self.size_no_available@,
            ttr_seconds: integer_option(self.ttr_seconds),
            neg_risk: self.neg_risk,
            cex_product: text_option(self.cex_product),
            cex_spot: self.cex_spot,
            cex_strike: self.cex_strike,
            cex_sigma_annual: self.cex_sigma_annual,
            p_model_yes: self.p_model_yes,
            cex_edge: self.cex_edge,
            direction: text_option(self.direction),
            size_usdc: self.size_usdc@,
            edge_per_unit: self.edge_per_unit@,
            expected_pnl_usdc: self.expected_pnl_usdc@,
        }
    }
}

/// The view of an optional decision.
pub open spec fn decision_option(d: Option<Decision>) -> Option<DecisionView> {
    match d {
        Some(x) => Some(x@),
        None => None,
    }
}

/// Whole seconds until a market resolves, if it is known when.
pub open spec fn time_to_resolution(market: MarketView, now: int) -> Option<int> {
    match market.end_date {
        Some(end) => Some(seconds_between(now, end)),
        None => None,
    }
}

/// A decision on a market before anything was looked at: to skip, for no reason
/// yet.
pub open spec fn blank_decision(strategy: Seq<char>, market: MarketView, now: int) -> DecisionView {
    DecisionView {
        strategy,
        timestamp: now,
        market_id: market.condition_id,
        market_slug: market.slug,
        decision: DecisionKind::Skip,
        skip_reason: None,
        yes_token_id: market.yes_token_id,
        no_token_id: market.no_token_id,
        price_yes: whole_num(0),
        price_no: whole_num(0),
        sum_ask: whole_num(0),
        size_yes_available: whole_num(0),
        size_no_available: whole_num(0),
        ttr_seconds: time_to_resolution(market, now),
        neg_risk: market.neg_risk,
        cex_product: None,
        cex_spot: None,
        cex_strike: None,
        cex_sigma_annual: None,
        p_model_yes: None,
        cex_edge: None,
        direction: None,
        size_usdc: whole_num(0),
        edge_per_unit: whole_num(0),
        expected_pnl_usdc: whole_num(0),
    }
}

impl DecisionView {
    /// The decision with a reason to skip.
    pub open spec fn because(self, reason: Seq<char>) -> DecisionView {
        DecisionView { skip_reason: Some(reason), ..self }
    }

    /// The decision with the lowest asks of both outcomes noted.
    pub open spec fn at_asks(
        self,
        yes: (Num, Num),
        no: (Num, Num),
        sum_ask: Num,
    ) -> DecisionView {
        DecisionView {
            price_yes: yes.0,
            price_no: no.0,
            sum_ask,
            size_yes_available: yes.1,
            size_no_available: no.1,
            ..self
        }
    }

    /// The decision to enter.
    pub open spec fn entering(
        self,
        direction: Seq<char>,
        size_usdc: Num,
        expected_pnl_usdc: Num,
    ) -> DecisionView {
        DecisionView {
            decision: DecisionKind::Enter,
            direction: Some(direction),
            size_usdc,
            expected_pnl_usdc,
            ..self
        }
    }
}

impl Decision {
    /// A decision on a market before anything was looked at.
    pub fn blank(strategy: &str, market: &Market, now: Timestamp) -> (r: Decision)
        ensures
            r@ == blank_decision(strategy@, market@, now@),
    {
        Decision {
            strategy: strategy.to_string(),
            timestamp: now,
            market_id: market.condition_id.clone(),
            market_slug: market.slug.clone(),
            decision: DecisionKind::Skip,
            skip_reason: None,
            yes_token_id: market.yes_token_id.clone(),
            no_token_id: market.no_token_id.clone(),
            price_yes: Decimal::zero(),
            price_no: Decimal::zero(),
            sum_ask: Decimal::zero(),
            size_yes_available: Decimal::zero(),
            size_no_available: Decimal::zero(),
            ttr_seconds: match market.end_date {
                Some(end) => Some(end.seconds_since(&now)),
                None => None,
            },
            neg_risk: market.neg_risk,
            cex_product: None,
            cex_spot: None,
            cex_strike: None,
            cex_sigma_annual: None,
            p_model_yes: None,
            cex_edge: None,
            direction: None,
            size_usdc: Decimal::zero(),
            edge_per_unit: Decimal::zero(),
            expected_pnl_usdc: Decimal::zero(),
        }
    }

    /// The decision with a reason to skip.
    pub fn skipped(self, reason: &str) -> (r: Decision)
        ensures
            r@ == self@.because(reason@),
    {
        let mut d = self;
        d.skip_reason = Some(reason.to_string());
        d
    }

    /// The decision with the lowest asks of both outcomes noted.
    pub fn noting_asks(
        self,
        yes: (Decimal, Decimal),
        no: (Decimal, Decimal),
        sum_ask: Decimal,
    ) -> (r: Decision)
        ensures
            r@ == self@.at_asks((yes.0@, yes.1@), (no.0@, no.1@), sum_ask@),
    {
        let mut d = self;
        d.price_yes = yes.0;
        d.price_no = no.0;
        d.sum_ask = sum_ask;
        d.size_yes_available = yes.1;
        d.size_no_available = no.1;
        d
    }

    /// The decision to enter.
    pub fn entered(
        self,
        direction: &str,
        size_usdc: Decimal,
        expected_pnl_usdc: Decimal,
    ) -> (r: Decision)
        ensures
            r@ == self@.entering(direction@, size_usdc@, expected_pnl_usdc@),
    {
        let mut d = self;
        d.decision = DecisionKind::Enter;
        d.direction = Some(direction.to_string());
        d.size_usdc = size_usdc;
        d.expected_pnl_usdc = expected_pnl_usdc;
        d
    }
}

/// Law: a decision starts out as a skip for no reason yet, about its own market at its own
/// time, with nothing else noted.
pub proof fn decisions_start_out_blank(strategy: Seq<char>, market: MarketView, now: int)
    ensures
        ({
            let d = blank_decision(strategy, market, now);
            &&& d.strategy == strategy
            &&& d.timestamp == now
            &&& d.market_id == market.condition_id
            &&& d.market_slug == market.slug
            &&& d.yes_token_id == market.yes_token_id
            &&& d.no_token_id == market.no_token_id
            &&& d.neg_risk == market.neg_risk
            &&& market.end_date matches Some(end) ==> d.ttr_seconds == Some(
                seconds_between(now, end),
            )
            &&& market.end_date is None ==> d.ttr_seconds is None
            &&& d.decision == DecisionKind::Skip
            &&& d.skip_reason is None
            &&& d.direction is None
            &&& d.price_yes.mant == 0
            &&& d.price_no.mant == 0
            &&& d.sum_ask.mant == 0
            &&& d.size_yes_available.mant == 0
            &&& d.size_no_available.mant == 0
            &&& d.size_usdc.mant == 0
            &&& d.edge_per_unit.mant == 0
            &&& d.expected_pnl_usdc.mant == 0
            &&& d.cex_product is None
            &&& d.cex_spot is None
            &&& d.cex_strike is None
            &&& d.cex_sigma_annual is None
            &&& d.p_model_yes is None
            &&& d.cex_edge is None
        }),
{
}

/// Law: a reason, the asks and an entry are each noted where they belong, YES with YES and
/// NO with NO, and change nothing else.
pub proof fn notes_change_what_they_note(
    d: DecisionView,
    text: Seq<char>,
    yes: (Num, Num),
    no: (Num, Num),
    x: Num,
    y: Num,
)
    ensures
        d.because(text) == (DecisionView { skip_reason: Some(text), ..d }),
        d.at_asks(yes, no, x) == (DecisionView {
            price_yes: yes.0,
            size_yes_available: yes.1,
            price_no: no.0,
            size_no_available: no.1,
            sum_ask: x,
            ..d
        }),
        d.entering(text, x, y) == (DecisionView {
            decision: DecisionKind::Enter,
            direction: Some(text),
            size_usdc: x,
            expected_pnl_usdc: y,
            ..d
        }),
{
}

} // verus!
