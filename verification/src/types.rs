//! The domain: markets, order legs and arbitrage opportunities.

use crate::decimal::{Decimal, Num};
use crate::timestamp::Timestamp;
use vstd::prelude::*;

verus! {

/// Which way an order goes.
#[derive(Debug, Clone, Copy, PartialEq, Eq, Structural)]
pub enum Side {
    Buy,
    Sell,
}

/// The two outcomes of a binary market.
#[derive(Debug, Clone, Copy, PartialEq, Eq, Structural)]
pub enum Outcome {
    Yes,
    No,
}

/// A binary market. `condition_id` is its canonical key.
#[derive(Debug)]
pub struct Market {
    pub condition_id: String,
    pub slug: String,
    pub question: String,
    pub yes_token_id: String,
    pub no_token_id: String,
    pub end_date: Option<Timestamp>,
    pub neg_risk: bool,
}

/// What a [`Market`] says.
pub struct MarketView {
    pub condition_id: Seq<char>,
    pub slug: Seq<char>,
    pub question: Seq<char>,
    pub yes_token_id: Seq<char>,
    pub no_token_id: Seq<char>,
    pub end_date: Option<int>,
    pub neg_risk: bool,
}

impl View for Market {
    type V = MarketView;

    open spec fn view(&self) -> MarketView {
        MarketView {
            condition_id: self.condition_id@,
            slug: self.slug@,
            question: self.question@,
            yes_token_id: self.yes_token_id@,
            no_token_id: self.no_token_id@,
            end_date: crate::timestamp::timestamp_option(self.end_date),
            neg_risk: self.neg_risk,
        }
    }
}

impl Clone for Market {
    fn clone(&self) -> (r: Market)
        ensures
            r@ == self@,
    {
        Market {
            condition_id: self.condition_id.clone(),
            slug: self.slug.clone(),
            question: self.question.clone(),
            yes_token_id: self.yes_token_id.clone(),
            no_token_id: self.no_token_id.clone(),
            end_date: self.end_date,
            neg_risk: self.neg_risk,
        }
    }
}

/// One order of an opportunity.
#[derive(Debug)]
pub struct ArbLeg {
    pub asset_id: String,
    pub side: Side,
    pub price: Decimal,
    pub size_shares: Decimal,
}

/// What an [`ArbLeg`] says.
pub struct ArbLegView {
    pub asset_id: Seq<char>,
    pub side: Side,
    pub price: Num,
    pub size_shares: Num,
}

impl View for ArbLeg {
    type V = ArbLegView;

    open spec fn view(&self) -> ArbLegView {
        ArbLegView {
            asset_id: self.asset_id@,
            side: self.side,
            price: self.price@,
            size_shares: self.size_shares@,
        }
    }
}

impl Clone for ArbLeg {
    fn clone(&self) -> (r: ArbLeg)
        ensures
            r@ == self@,
    {
        ArbLeg {
            asset_id: self.asset_id.clone(),
            side: self.side,
            price: self.price,
            size_shares: self.size_shares,
        }
    }
}

/// Orders that together are worth more than they cost.
#[derive(Debug)]
pub struct ArbOpportunity {
    pub strategy: String,
    pub market_id: String,
    pub detected_at: Timestamp,
    pub legs: Vec<ArbLeg>,
    pub edge_per_unit: Decimal,
    pub notional_usdc: Decimal,
    pub expected_pnl_usdc: Decimal,
    pub sum_ask: Decimal,
}

/// What an [`ArbOpportunity`] says.
#[verifier::ext_equal]
pub struct ArbOpportunityView {
    pub strategy: Seq<char>,
    pub market_id: Seq<char>,
    pub detected_at: int,
    pub legs: Seq<ArbLegView>,
    pub edge_per_unit: Num,
    pub notional_usdc: Num,
    pub expected_pnl_usdc: Num,
    pub sum_ask: Num,
}

impl View for ArbOpportunity {
    type V = ArbOpportunityView;

    open spec fn view(&self) -> ArbOpportunityView {
        ArbOpportunityView {
            strategy: self.strategy@,
            market_id: self.market_id@,
            detected_at: self.detected_at@,
            legs: self.legs@.map_values(|l: ArbLeg| l@),
            edge_per_unit: self.edge_per_unit@,
            notional_usdc: self.notional_usdc@,
            expected_pnl_usdc: self.expected_pnl_usdc@,
            sum_ask: self.sum_ask@,
        }
    }
}

} // verus!
