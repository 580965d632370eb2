//! Why a strategy stays out of a market.

use vstd::prelude::*;

verus! {

pub const NEG_RISK: &'static str = "neg_risk";

pub const TTR_TOO_LOW: &'static str = "ttr_too_low";

pub const LIQUIDITY_TOO_LOW: &'static str = "liquidity_too_low";

pub const PRICE_OUT_OF_RANGE: &'static str = "price_out_of_range";

pub const NO_EDGE: &'static str = "no_edge";

pub const EDGE_TOO_HIGH: &'static str = "edge_too_high_phantom";

pub const NO_CEX_DATA: &'static str = "no_cex_data";

pub const CEX_DISAGREES: &'static str = "cex_disagrees";

pub const NO_SIGMA: &'static str = "no_sigma";

pub const NO_STRIKE: &'static str = "no_strike";

pub const DEDUP: &'static str = "dedup";

} // verus!
