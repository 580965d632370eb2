//! Strategy A with real orders, or in a dry run without.

use crate::bilateral::market_books;
use crate::book_state::{BookState, BookView};
use crate::decimal::{
    Checked, Decimal, Num, decimal_exact_text, decimal_option, units, whole_num,
};
use crate::double::Double;
use crate::live::{ArbLegOrder, ArbSide, SafetyLimits};
use crate::market_index::text_map;
use crate::runner::{assets_of_all, index_with_all, views_of, with_assets};
use crate::strategies::lag_arb::{
    CexSignal, Entries, LagArbConfig, LagArbStrategy, LagView, entries_after,
    entry_follows_momentum, entry_within_cap, lag_decision, lag_market_overflows, products_with_all,
};
use crate::strategies::{Decision, DecisionKind, DecisionView};
use crate::string_map::StringMap;
use crate::text::{same_but_for_case, same_ignoring_case, same_text, texts, trim, trimmed};
use crate::timestamp::in_range;
use crate::types::{Market, MarketView};
use vstd::prelude::*;

verus! {

/// Whether orders go out.
#[derive(Debug, Clone, Copy, PartialEq, Eq, Structural)]
pub enum LiveMode {
    /// Entries are recorded only.
    DryRun,
    /// Entries are recorded and traded.
    Live,
}

/// The bits of the double nearest to three basis points, 0.0003.
pub const THREE_BASIS_POINTS: u64 = 0x3f33_a92a_3055_3261;

/// The strategy for live trading: every trade at the limit per trade.
pub fn lag_config(limits: &SafetyLimits) -> (r: LagArbConfig)
    ensures
        r@ == (LagView {
            momentum_threshold: Double { bits: THREE_BASIS_POINTS },
            base_size_usdc: limits@.max_per_trade_usdc,
            max_size_usdc: limits@.max_per_trade_usdc,
            min_ttr_seconds: 30,
            max_ttr_seconds: 600,
            min_price_yes: Num { mant: 3, scale: 2 },
            max_price_yes: Num { mant: 97, scale: 2 },
            momentum_window_s: 30,
            dedup_window_s: 60,
        }),
        r@.momentum_threshold.bits == 0x3f33_a92a_3055_3261,
{
    LagArbConfig {
        momentum_threshold: Double { bits: THREE_BASIS_POINTS },
        base_size_usdc: limits.max_per_trade_usdc,
        max_size_usdc: limits.max_per_trade_usdc,
        min_ttr_seconds: 30,
        max_ttr_seconds: 600,
        min_price_yes: Decimal::new(3, 2),
        max_price_yes: Decimal::new(97, 2),
        momentum_window_s: 30,
        dedup_window_s: 60,
    }
}

/// The products that the strategy follows.
pub fn products() -> (r: Vec<String>)
    ensures
        texts(r@) == seq!["BTC-USD"@, "ETH-USD"@, "SOL-USD"@, "XRP-USD"@],
{
    let mut r: Vec<String> = Vec::new();
    r.push("BTC-USD".to_string());
    r.push("ETH-USD".to_string());
    r.push("SOL-USD".to_string());
    r.push("XRP-USD".to_string());
    assert(texts(r@) =~= seq!["BTC-USD"@, "ETH-USD"@, "SOL-USD"@, "XRP-USD"@]);
    r
}

/// The take-profit percentage that a text without whitespace around it sets: none
/// where it is `off` or `0`, and else the number that was read out of it.
pub open spec fn take_profit_on(t: Seq<char>, read: Option<Num>) -> Result<Option<Num>, ()> {
    if same_but_for_case(t, "off"@) || t == "0"@ {
        Ok(None)
    } else {
        match read {
            Some(n) => Ok(Some(n)),
            None => Err(()),
        }
    }
}

/// The take-profit percentage that a variable sets, fifteen unless it is set.
pub open spec fn take_profit_setting(var: Option<Seq<char>>) -> Result<Option<Num>, ()> {
    match var {
        None => Ok(Some(whole_num(15))),
        Some(s) => take_profit_on(trimmed(s), decimal_exact_text(trimmed(s))),
    }
}

/// The view of a percentage that was read.
pub open spec fn percentage_view(r: Result<Option<Decimal>, ()>) -> Result<Option<Num>, ()> {
    match r {
        Ok(d) => Ok(decimal_option(d)),
        Err(_) => Err(()),
    }
}

/// The take-profit percentage that a text without whitespace around it sets.
pub fn take_profit_from(t: &str, read: Option<Decimal>) -> (r: Result<Option<Decimal>, ()>)
    ensures
        percentage_view(r) == take_profit_on(t@, decimal_option(read)),
{
    if same_ignoring_case(t, "off") || same_text(t, "0") {
        return Ok(None);
    }
    match read {
        Some(d) => Ok(Some(d)),
        None => Err(()),
    }
}

/// The take-profit percentage that a variable sets.
pub fn take_profit_pct(var: Option<&String>) -> (r: Result<Option<Decimal>, ()>)
    ensures
        percentage_view(r) == take_profit_setting(
            match var {
                Some(s) => Some(s@),
                None => None,
            },
        ),
{
    match var {
        None => Ok(Some(Decimal::new(15, 0))),
        Some(s) => {
            let t = trim(s.as_str());
            take_profit_from(t, Decimal::parse_exact(t))
        },
    }
}

/// The private key among the variables: `PRIVATE_KEY`, or else
/// `POLYMARKET_PRIVATE_KEY`.
pub fn private_key_of(vars: &StringMap<String>) -> (r: Option<&String>)
    ensures
        match r {
            Some(k) => if vars@.contains_key("PRIVATE_KEY"@) {
                *k == vars@["PRIVATE_KEY"@]
            } else {
                vars@.contains_key("POLYMARKET_PRIVATE_KEY"@) && *k
                    == vars@["POLYMARKET_PRIVATE_KEY"@]
            },
            None => !vars@.contains_key("PRIVATE_KEY"@) && !vars@.contains_key(
                "POLYMARKET_PRIVATE_KEY"@,
            ),
        },
{
    match vars.get("PRIVATE_KEY") {
        Some(k) => Some(k),
        None => vars.get("POLYMARKET_PRIVATE_KEY"),
    }
}

/// Adds markets to the strategy and returns their assets.
pub fn register_markets(strategy: &mut LagArbStrategy, markets: &Vec<Market>) -> (r: StringMap<
    String,
>)
    ensures
        text_map(r@) == assets_of_all(views_of(markets@)),
        final(strategy).index() == index_with_all(old(strategy).index(), views_of(markets@)),
        final(strategy).config() == old(strategy).config(),
        final(strategy).entries() == old(strategy).entries(),
        final(strategy).products() == products_with_all(
            old(strategy).products(),
            views_of(markets@),
        ),
{
    let mut assets: StringMap<String> = StringMap::new();
    let ghost all = views_of(markets@);
    let mut i: usize = 0;
    proof {
        assert(all.take(0) =~= Seq::empty());
        assert(text_map(assets@) =~= Map::empty());
    }
    while i < markets.len()
        invariant
            i <= markets@.len(),
            all == views_of(markets@),
            text_map(assets@) == assets_of_all(all.take(i as int)),
            strategy.index() == index_with_all(old(strategy).index(), all.take(i as int)),
            strategy.config() == old(strategy).config(),
            strategy.entries() == old(strategy).entries(),
            strategy.products() == products_with_all(
                old(strategy).products(),
                all.take(i as int),
            ),
        decreases markets@.len() - i,
    {
        let m = &markets[i];
        let ghost before = text_map(assets@);
        proof {
            assert(all.take(i + 1).drop_last() =~= all.take(i as int));
            assert(all.take(i + 1).last() == m@);
        }
        strategy.register_market(m.clone());
        assets.insert(m.yes_token_id.clone(), m.condition_id.clone());
        assets.insert(m.no_token_id.clone(), m.condition_id.clone());
        assert(text_map(assets@) =~= with_assets(before, m@));
        i += 1;
    }
    proof {
        assert(all.take(markets@.len() as int) =~= all);
    }
    assets
}

/// What to do about a decision.
#[derive(Debug)]
pub enum LiveStep {
    /// It is no entry.
    Nothing,
    /// Record it; orders are off, or nobody can send them.
    Record,
    /// Record it; it names no outcome to buy.
    UnknownDirection,
    /// Record it; the outcome has no price.
    ZeroPrice,
    /// Record it and send this order.
    Trade(ArbLegOrder),
}

/// What came of a book update.
pub enum LiveUpdate {
    /// No market has the asset.
    NotFollowed,
    /// The market or one of its books is not known.
    NoBooks,
    /// A figure overflows.
    Overflow,
    /// The decision, and what to do about it.
    Decided(Decision, LiveStep),
}

/// The token and the price of the outcome that a decision would buy.
pub open spec fn outcome_of(d: DecisionView) -> Option<(Seq<char>, Num)> {
    match d.direction {
        Some(s) => if s == "YES"@ {
            Some((d.yes_token_id, d.price_yes))
        } else if s == "NO"@ {
            Some((d.no_token_id, d.price_no))
        } else {
            None
        },
        None => None,
    }
}

/// `step` is what to do about a decision.
pub open spec fn is_step_of(
    step: LiveStep,
    d: DecisionView,
    mode: LiveMode,
    has_executor: bool,
) -> bool {
    if d.decision != DecisionKind::Enter {
        step is Nothing
    } else if mode == LiveMode::DryRun || !has_executor || d.direction is None {
        step is Record
    } else {
        match outcome_of(d) {
            None => step is UnknownDirection,
            Some((token, price)) => if units(price) <= 0 {
                step is ZeroPrice
            } else {
                step matches LiveStep::Trade(leg) && leg.token_id@ == token && leg.side
                    == ArbSide::Buy && leg.size_usdc@ == d.size_usdc
            },
        }
    }
}

/// What to do about a decision.
pub fn live_step(decision: &Decision, mode: LiveMode, has_executor: bool) -> (r: LiveStep)
    ensures
        is_step_of(r, decision@, mode, has_executor),
{
    if decision.decision != DecisionKind::Enter {
        return LiveStep::Nothing;
    }
    if mode == LiveMode::DryRun || !has_executor {
        return LiveStep::Record;
    }
    let direction = match &decision.direction {
        Some(s) => s,
        None => return LiveStep::Record,
    };
    let (token_id, price) = if same_text(direction.as_str(), "YES") {
        (decision.yes_token_id.clone(), decision.price_yes)
    } else if same_text(direction.as_str(), "NO") {
        (decision.no_token_id.clone(), decision.price_no)
    } else {
        return LiveStep::UnknownDirection;
    };
    if !price.is_positive() {
        return LiveStep::ZeroPrice;
    }
    LiveStep::Trade(
        ArbLegOrder { token_id, side: ArbSide::Buy, size_usdc: decision.size_usdc },
    )
}

/// Looks at the market of the asset whose book was updated.
pub fn dispatch(
    strategy: &mut LagArbStrategy,
    asset_id: &str,
    books: &StringMap<BookState>,
    signals: &StringMap<CexSignal>,
    mode: LiveMode,
    has_executor: bool,
) -> (r: LiveUpdate)
    ensures
        final(strategy).config() == old(strategy).config(),
        final(strategy).index() == old(strategy).index(),
        final(strategy).products() == old(strategy).products(),
        match old(strategy).index().market_of(asset_id@) {
            None => r is NotFollowed && final(strategy).entries() == old(strategy).entries(),
            Some(id) => match (r, market_books(old(strategy).index(), id, books@)) {
                (LiveUpdate::Overflow, _) => final(strategy).entries() == old(strategy).entries()
                    && exists|now: int|
                    in_range(now) && #[trigger] lag_market_overflows(
                        old(strategy).index(),
                        old(strategy).config(),
                        old(strategy).entries(),
                        id,
                        books@,
                        signals@,
                        now,
                    ),
                (LiveUpdate::NoBooks, None) => final(strategy).entries() == old(strategy).entries(),
                (LiveUpdate::Decided(d, step), Some((market, book_a, book_b))) => {
                    &&& lag_decision(
                        market,
                        book_a,
                        book_b,
                        signals@,
                        old(strategy).config(),
                        old(strategy).entries(),
                        d@.timestamp,
                    ) == Some(d@)
                    &&& final(strategy).entries() == entries_after(
                        old(strategy).entries(),
                        market,
                        d@,
                    )
                    &&& entry_within_cap(d@, old(strategy).config())
                    &&& is_step_of(step, d@, mode, has_executor)
                },
                _ => false,
            },
        },
{
    let market_id = match strategy.market_id_for_asset(asset_id) {
        Some(id) => id.to_string(),
        None => return LiveUpdate::NotFollowed,
    };
    match strategy.try_evaluate_market(market_id.as_str(), books, signals) {
        Checked::Overflow => LiveUpdate::Overflow,
        Checked::Value(None) => LiveUpdate::NoBooks,
        Checked::Value(Some(d)) => {
            let step = live_step(&d, mode, has_executor);
            LiveUpdate::Decided(d, step)
        },
    }
}

/// Law: a dry run sends no orders, nor does a run in which nobody can.
pub proof fn dry_runs_send_no_orders(
    step: LiveStep,
    d: DecisionView,
    mode: LiveMode,
    has_executor: bool,
)
    requires
        is_step_of(step, d, mode, has_executor),
        mode == LiveMode::DryRun || !has_executor,
    ensures
        step !is Trade,
{
}

/// Law: an order buys the outcome that the exchange price moves towards, at a
/// price above nothing and below seventy cents, and for what the decision says.
pub proof fn orders_follow_momentum(
    market: MarketView,
    book_a: BookView,
    book_b: BookView,
    signals: Map<Seq<char>, CexSignal>,
    cfg: LagView,
    entries: Entries,
    now: int,
    leg: ArbLegOrder,
    mode: LiveMode,
    has_executor: bool,
)
    ensures
        lag_decision(market, book_a, book_b, signals, cfg, entries, now) matches Some(d) ==> (
        is_step_of(LiveStep::Trade(leg), d, mode, has_executor) ==> {
            &&& mode == LiveMode::Live
            &&& d.cex_edge is Some
            &&& leg.token_id@ == (if Double::nought().below(d.cex_edge->0) {
                market.yes_token_id
            } else {
                market.no_token_id
            })
            &&& 0 < units(
                if Double::nought().below(d.cex_edge->0) {
                    d.price_yes
                } else {
                    d.price_no
                },
            ) < units(Num { mant: 7, scale: 1 })
            &&& leg.size_usdc@ == d.size_usdc
        }),
{
    entry_follows_momentum(market, book_a, book_b, signals, cfg, entries, now);
    reveal_strlit("YES");
    reveal_strlit("NO");
    assert("YES"@.len() != "NO"@.len());
}

/// Law: orders go out just for an entry, in a live run with somebody to send them, on an
/// outcome that is YES or NO and has a price above nothing. The order then buys the token
/// of that outcome for what the decision says. Every other entry is recorded only, and
/// what is no entry leads to nothing.
pub proof fn orders_go_out_just_for_live_entries(
    step: LiveStep,
    d: DecisionView,
    mode: LiveMode,
    has_executor: bool,
)
    requires
        is_step_of(step, d, mode, has_executor),
    ensures
        ({
            let able = d.decision == DecisionKind::Enter && mode == LiveMode::Live && has_executor;
            let yes = d.direction == Some("YES"@);
            let no = d.direction == Some("NO"@);
            let priced = (yes && units(d.price_yes) > 0) || (no && units(d.price_no) > 0);
            &&& step is Nothing <==> d.decision == DecisionKind::Skip
            &&& step is Trade <==> able && priced
            &&& step is ZeroPrice <==> able && (yes || no) && !priced
            &&& step is UnknownDirection <==> able && d.direction is Some && !yes && !no
            &&& step is Record <==> d.decision == DecisionKind::Enter && (!able || d.direction
                is None)
            &&& step matches LiveStep::Trade(leg) ==> {
                &&& leg.side == ArbSide::Buy
                &&& leg.size_usdc@ == d.size_usdc
                &&& yes ==> leg.token_id@ == d.yes_token_id
                &&& no ==> leg.token_id@ == d.no_token_id
            }
        }),
{
    reveal_strlit("YES");
    reveal_strlit("NO");
    assert("YES"@.len() != "NO"@.len());
}

/// Law: take-profit is at fifteen percent unless the variable is set, off where it says
/// `0` or, in any letter case, `off`, and else at the number that it writes, whitespace
/// aside; where it writes none it is an error.
pub proof fn take_profit_is_what_the_variable_says(s: Seq<char>)
    ensures
        take_profit_setting(None) == Ok::<Option<Num>, ()>(Some(Num { mant: 15, scale: 0 })),
        ({
            let t = trimmed(s);
            let setting = take_profit_setting(Some(s));
            let off = same_but_for_case(t, "off"@) || t == "0"@;
            &&& off ==> setting == Ok::<Option<Num>, ()>(None)
            &&& !off && decimal_exact_text(t) is Some ==> setting == Ok::<Option<Num>, ()>(
                decimal_exact_text(t),
            )
            &&& !off && decimal_exact_text(t) is None ==> setting is Err
        }),
{
}

} // verus!
