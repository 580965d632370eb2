//! Strategies A, B and C side by side on one stream of book updates.

use crate::bilateral::market_books;
use crate::book_state::{BookState, BookView};
use crate::cex_feed::{CexState, CexView, cex_map};
use crate::config::{Settings, SettingsView};
use crate::decimal::{
    Checked, Decimal, Num, lemma_units_whole, one_unit, pow10, units, whole, whole_num,
};
use crate::double::Double;
use crate::market_index::{IndexView, text_map};
use crate::runner::{
    assets_of_all, index_with_all, max_shares_for, share_cap, views_of, with_assets,
};
use crate::strategies::bilateral_pure::{
    BilateralPureConfig, BilateralPureStrategy, PureView, pure_decision, pure_market_decision,
    pure_market_overflows,
};
use crate::strategies::hybrid::{
    HybridConfig, HybridStep, HybridStrategy, HybridView, ModelReading, StepView, conclusion,
    hybrid_step, strike_of, strikes_with,
};
use crate::strategies::lag_arb::{
    CexSignal, Entries, LagArbConfig, LagArbStrategy, LagView, default_lag, entries_after,
    entry_within_cap, lag_decision, lag_market_overflows, products_with_all,
};
use crate::strategies::{Decision, DecisionKind, DecisionView, skip_reasons};
use crate::string_map::StringMap;
use crate::text::{same_text, texts};
use crate::timestamp::in_range;
use crate::types::{Market, MarketView};
use vstd::prelude::*;

verus! {

/// The bits of the double nearest to five hundredths, 0.05.
pub const FIVE_PERCENT: u64 = 0x3fa9_9999_9999_999a;

/// The products that the strategies follow.
pub fn products() -> (r: Vec<String>)
    ensures
        texts(r@) == seq!["BTC-USD"@, "ETH-USD"@],
{
    let mut r: Vec<String> = Vec::new();
    r.push("BTC-USD".to_string());
    r.push("ETH-USD".to_string());
    assert(texts(r@) =~= seq!["BTC-USD"@, "ETH-USD"@]);
    r
}

/// The filters of B under given settings, with so permissive bounds that nearly
/// every offer shows up in the record.
pub open spec fn permissive_filters(
    fee_rate_bps: int,
    slippage_buffer_bps: int,
    max_shares: Num,
) -> PureView {
    PureView {
        fee_rate_bps,
        min_edge_per_unit: Num { mant: 1, scale: 3 },
        max_edge_per_unit: Num { mant: 30, scale: 2 },
        slippage_buffer_bps,
        max_shares,
        min_ttr_seconds: 10,
        min_liquidity_usdc: whole_num(1),
    }
}

/// The filters of B, unless the cap overflows.
pub fn bilateral_config(settings: &Settings) -> (r: Option<BilateralPureConfig>)
    ensures
        match r {
            Some(c) => share_cap(settings@.arb_max_size_usdc) == Some(c@.max_shares) && c@
                == permissive_filters(
                settings@.arb_fee_rate_bps,
                settings@.arb_slippage_buffer_bps,
                c@.max_shares,
            ),
            None => share_cap(settings@.arb_max_size_usdc) is None,
        },
{
    match max_shares_for(settings.arb_max_size_usdc) {
        Some(max_shares) => Some(
            BilateralPureConfig {
                fee_rate_bps: settings.arb_fee_rate_bps,
                min_edge_per_unit: Decimal::new(1, 3),
                max_edge_per_unit: Decimal::new(30, 2),
                slippage_buffer_bps: settings.arb_slippage_buffer_bps,
                max_shares,
                min_ttr_seconds: 10,
                min_liquidity_usdc: Decimal::new(1, 0),
            },
        ),
        None => None,
    }
}

/// The filters and the tolerance of C, unless the cap overflows.
pub fn hybrid_config(settings: &Settings) -> (r: Option<HybridConfig>)
    ensures
        match r {
            Some(c) => share_cap(settings@.arb_max_size_usdc) == Some(c@.bilateral.max_shares)
                && c@ == (HybridView {
                bilateral: permissive_filters(
                    settings@.arb_fee_rate_bps,
                    settings@.arb_slippage_buffer_bps,
                    c@.bilateral.max_shares,
                ),
                cex_tolerance: Double { bits: FIVE_PERCENT },
            }),
            None => share_cap(settings@.arb_max_size_usdc) is None,
        },
{
    match bilateral_config(settings) {
        Some(bilateral) => Some(
            HybridConfig { bilateral, cex_tolerance: Double { bits: FIVE_PERCENT } },
        ),
        None => None,
    }
}

/// A reason to skip that goes into the record.
pub open spec fn is_recorded_reason(reason: Seq<char>) -> bool {
    ||| reason == skip_reasons::NEG_RISK@
    ||| reason == skip_reasons::TTR_TOO_LOW@
    ||| reason == skip_reasons::LIQUIDITY_TOO_LOW@
    ||| reason == skip_reasons::PRICE_OUT_OF_RANGE@
    ||| reason == skip_reasons::NO_EDGE@
    ||| reason == skip_reasons::EDGE_TOO_HIGH@
    ||| reason == skip_reasons::NO_CEX_DATA@
    ||| reason == skip_reasons::CEX_DISAGREES@
    ||| reason == skip_reasons::NO_SIGMA@
    ||| reason == skip_reasons::NO_STRIKE@
    ||| reason == skip_reasons::DEDUP@
}

/// A decision goes into the record: an entry, or a skip for a known reason.
pub open spec fn is_recorded(d: DecisionView) -> bool {
    d.decision == DecisionKind::Enter || (d.skip_reason matches Some(r) && is_recorded_reason(r))
}

/// Whether a decision goes into the record.
pub fn should_log(d: &Decision) -> (r: bool)
    ensures
        r == is_recorded(d@),
{
    if d.decision == DecisionKind::Enter {
        return true;
    }
    match &d.skip_reason {
        Some(s) => {
            let reason = s.as_str();
            same_text(reason, skip_reasons::NEG_RISK) || same_text(
                reason,
                skip_reasons::TTR_TOO_LOW,
            ) || same_text(reason, skip_reasons::LIQUIDITY_TOO_LOW) || same_text(
                reason,
                skip_reasons::PRICE_OUT_OF_RANGE,
            ) || same_text(reason, skip_reasons::NO_EDGE) || same_text(
                reason,
                skip_reasons::EDGE_TOO_HIGH,
            ) || same_text(reason, skip_reasons::NO_CEX_DATA) || same_text(
                reason,
                skip_reasons::CEX_DISAGREES,
            ) || same_text(reason, skip_reasons::NO_SIGMA) || same_text(
                reason,
                skip_reasons::NO_STRIKE,
            ) || same_text(reason, skip_reasons::DEDUP)
        },
        None => false,
    }
}

/// Law: every decision of A, B and C goes into the record, whatever the model
/// says.
pub proof fn every_decision_is_recorded(
    market: MarketView,
    book_a: BookView,
    book_b: BookView,
    signals: Map<Seq<char>, CexSignal>,
    cex: Map<Seq<char>, CexView>,
    strikes: Map<Seq<char>, Double>,
    lag: LagView,
    entries: Entries,
    pure: PureView,
    hybrid: HybridView,
    now: int,
    market_ends: bool,
    reading: ModelReading,
)
    ensures
        lag_decision(market, book_a, book_b, signals, lag, entries, now) matches Some(d)
            ==> is_recorded(d),
        pure_decision(market, book_a, book_b, pure, now) matches Some(d) ==> is_recorded(d),
        hybrid_step(market, book_a, book_b, cex, strikes, hybrid, now) matches Some(step)
            ==> is_recorded(
            match step {
                StepView::Done(d) => d,
                StepView::NeedsModel(d) => conclusion(
                    d,
                    market_ends,
                    reading,
                    hybrid.cex_tolerance,
                ),
            },
        ),
{
}

/// A run of the three strategies under given settings.
pub struct TrinityRunner {
    settings: Settings,
}

impl TrinityRunner {
    /// The settings.
    pub closed spec fn settings(self) -> SettingsView {
        self.settings@
    }

    /// A run under `settings`.
    pub fn new(settings: Settings) -> (r: TrinityRunner)
        ensures
            r.settings() == settings@,
    {
        TrinityRunner { settings }
    }

    /// The three strategies without markets, unless the cap overflows.
    pub fn strategies(&self) -> (r: Option<Trinity>)
        ensures
            match r {
                Some(t) => t.is_fresh_under(self.settings()),
                None => share_cap(self.settings().arb_max_size_usdc) is None,
            },
    {
        match (bilateral_config(&self.settings), hybrid_config(&self.settings)) {
            (Some(pure), Some(hybrid)) => Some(
                Trinity {
                    lag: LagArbStrategy::new(LagArbConfig::default()),
                    pure: BilateralPureStrategy::new(pure),
                    hybrid: HybridStrategy::new(hybrid),
                },
            ),
            _ => None,
        }
    }
}

/// The three strategies.
pub struct Trinity {
    lag: LagArbStrategy,
    pure: BilateralPureStrategy,
    hybrid: HybridStrategy,
}

/// What the strategies made of a book update.
pub struct TrinityUpdate {
    pub a: Checked<Option<Decision>>,
    pub b: Checked<Option<Decision>>,
    pub c: Checked<Option<HybridStep>>,
}

impl Trinity {
    /// Strategy A.
    pub closed spec fn a(self) -> LagArbStrategy {
        self.lag
    }

    /// Strategy B.
    pub closed spec fn b(self) -> BilateralPureStrategy {
        self.pure
    }

    /// Strategy C.
    pub closed spec fn c(self) -> HybridStrategy {
        self.hybrid
    }

    /// No strategy has a market, an entry or a strike, and all go by `settings`.
    pub open spec fn is_fresh_under(self, settings: SettingsView) -> bool {
        let filters = permissive_filters(
            settings.arb_fee_rate_bps,
            settings.arb_slippage_buffer_bps,
            share_cap(settings.arb_max_size_usdc)->0,
        );
        &&& share_cap(settings.arb_max_size_usdc) is Some
        &&& self.a().config() == default_lag()
        &&& self.b().config() == filters
        &&& self.c().config() == (HybridView {
            bilateral: filters,
            cex_tolerance: Double { bits: FIVE_PERCENT },
        })
        &&& self.a().index() == IndexView::empty()
        &&& self.b().index() == IndexView::empty()
        &&& self.c().index() == IndexView::empty()
        &&& self.a().entries() == Entries::empty()
        &&& self.a().products() == Map::<Seq<char>, Seq<char>>::empty()
        &&& self.c().strikes() == Map::<Seq<char>, Double>::empty()
        &&& self.c().products() == Map::<Seq<char>, Seq<char>>::empty()
    }

    /// Strategy C.
    pub fn hybrid(&self) -> (r: &HybridStrategy)
        ensures
            *r == self.c(),
    {
        &self.hybrid
    }

    /// Adds markets to all three strategies and returns their assets.
    pub fn register_markets(&mut self, markets: &Vec<Market>) -> (r: StringMap<String>)
        ensures
            text_map(r@) == assets_of_all(views_of(markets@)),
            final(self).a().index() == index_with_all(old(self).a().index(), views_of(markets@)),
            final(self).b().index() == index_with_all(old(self).b().index(), views_of(markets@)),
            final(self).c().index() == index_with_all(old(self).c().index(), views_of(markets@)),
            final(self).a().config() == old(self).a().config(),
            final(self).b().config() == old(self).b().config(),
            final(self).c().config() == old(self).c().config(),
            final(self).a().entries() == old(self).a().entries(),
            final(self).a().products() == products_with_all(
                old(self).a().products(),
                views_of(markets@),
            ),
            final(self).c().products() == products_with_all(
                old(self).c().products(),
                views_of(markets@),
            ),
            final(self).c().strikes() == old(self).c().strikes(),
    {
        let mut assets: StringMap<String> = StringMap::new();
        let ghost all = views_of(markets@);
        let mut i: usize = 0;
        proof {
            assert(all.take(0) =~= Seq::empty());
            assert(text_map(assets@) =~= Map::empty());
        }
        while i < markets.len()
            invariant
                i <= markets@.len(),
                all == views_of(markets@),
                text_map(assets@) == assets_of_all(all.take(i as int)),
                self.a().index() == index_with_all(old(self).a().index(), all.take(i as int)),
                self.b().index() == index_with_all(old(self).b().index(), all.take(i as int)),
                self.c().index() == index_with_all(old(self).c().index(), all.take(i as int)),
                self.a().config() == old(self).a().config(),
                self.b().config() == old(self).b().config(),
                self.c().config() == old(self).c().config(),
                self.a().entries() == old(self).a().entries(),
                self.a().products() == products_with_all(
                    old(self).a().products(),
                    all.take(i as int),
                ),
                self.c().products() == products_with_all(
                    old(self).c().products(),
                    all.take(i as int),
                ),
                self.c().strikes() == old(self).c().strikes(),
            decreases markets@.len() - i,
        {
            let m = &markets[i];
            let ghost before = text_map(assets@);
            proof {
                assert(all.take(i + 1).drop_last() =~= all.take(i as int));
                assert(all.take(i + 1).last() == m@);
            }
            self.lag.register_market(m.clone());
            self.pure.register_market(m.clone());
            self.hybrid.register_market(m.clone());
            assets.insert(m.yes_token_id.clone(), m.condition_id.clone());
            assets.insert(m.no_token_id.clone(), m.condition_id.clone());
            assert(text_map(assets@) =~= with_assets(before, m@));
            i += 1;
        }
        proof {
            assert(all.take(markets@.len() as int) =~= all);
        }
        assets
    }

    /// Lets all three strategies look at the market of the asset whose book was
    /// updated. Which market that is, B says.
    pub fn dispatch(
        &mut self,
        asset_id: &str,
        books: &StringMap<BookState>,
        signals: &StringMap<CexSignal>,
        cex_state: &StringMap<CexState>,
    ) -> (r: Option<TrinityUpdate>)
        ensures
            r is Some <==> old(self).b().index().market_of(asset_id@) is Some,
            r is None ==> *final(self) == *old(self),
            r matches Some(u) ==> update_holds(
                u,
                old(self).b().index().market_of(asset_id@)->0,
                books@,
                signals@,
                cex_map(cex_state@),
                *old(self),
                *final(self),
            ),
    {
        let market_id = match self.pure.market_id_for_asset(asset_id) {
            Some(id) => id.to_string(),
            None => return None,
        };
        let a = self.lag.try_evaluate_market(market_id.as_str(), books, signals);
        let b = self.pure.try_evaluate_market(market_id.as_str(), books);
        let c = self.hybrid.try_evaluate_market(market_id.as_str(), books, cex_state);
        Some(TrinityUpdate { a, b, c })
    }
}

/// What an update of the market `id` says of the strategies before and after it.
pub open spec fn update_holds(
    u: TrinityUpdate,
    id: Seq<char>,
    books: Map<Seq<char>, BookState>,
    signals: Map<Seq<char>, CexSignal>,
    cex: Map<Seq<char>, CexView>,
    before: Trinity,
    after: Trinity,
) -> bool {
    &&& after.b() == before.b()
    &&& after.a().index() == before.a().index()
    &&& after.a().config() == before.a().config()
    &&& after.a().products() == before.a().products()
    &&& after.c().index() == before.c().index()
    &&& after.c().products() == before.c().products()
    &&& after.c().config() == before.c().config()
    &&& match (u.a, market_books(before.a().index(), id, books)) {
        (Checked::Overflow, _) => after.a().entries() == before.a().entries() && exists|now: int|
            in_range(now) && #[trigger] lag_market_overflows(
                before.a().index(),
                before.a().config(),
                before.a().entries(),
                id,
                books,
                signals,
                now,
            ),
        (Checked::Value(Some(d)), Some((market, book_a, book_b))) => lag_decision(
            market,
            book_a,
            book_b,
            signals,
            before.a().config(),
            before.a().entries(),
            d@.timestamp,
        ) == Some(d@) && after.a().entries() == entries_after(before.a().entries(), market, d@)
            && entry_within_cap(d@, before.a().config()),
        (Checked::Value(None), None) => after.a().entries() == before.a().entries(),
        _ => false,
    }
    &&& match u.b {
        Checked::Overflow => exists|now: int|
            in_range(now) && #[trigger] pure_market_overflows(
                before.b().index(),
                before.b().config(),
                id,
                books,
                now,
            ),
        Checked::Value(Some(d)) => pure_market_decision(
            before.b().index(),
            before.b().config(),
            id,
            books,
            d@.timestamp,
        ) == Some(d@),
        Checked::Value(None) => market_books(before.b().index(), id, books) is None,
    }
    &&& match (u.c, market_books(before.c().index(), id, books)) {
        (Checked::Overflow, _) => exists|now: int|
            in_range(now) && #[trigger] pure_market_overflows(
                before.c().index(),
                before.c().config().bilateral,
                id,
                books,
                now,
            ),
        (Checked::Value(Some(step)), Some((market, book_a, book_b))) => hybrid_step(
            market,
            book_a,
            book_b,
            cex,
            after.c().strikes(),
            before.c().config(),
            step@.decision().timestamp,
        ) == Some(step@),
        (Checked::Value(None), None) => true,
        _ => false,
    }
    &&& match u.c {
        Checked::Overflow => after.c().strikes() == before.c().strikes(),
        Checked::Value(_) => exists|now: int|
            in_range(now) && after.c().strikes() == strikes_with(
                before.c().strikes(),
                id,
                #[trigger] strike_of(
                    before.c().strikes(),
                    before.c().index(),
                    before.c().products(),
                    cex,
                    id,
                    now,
                ),
            ),
    }
}

/// Law: of the decisions the entries go into the record, and the skips for one of these
/// reasons; nothing else does.
pub proof fn entries_and_reasoned_skips_are_recorded(d: DecisionView)
    ensures
        d.decision == DecisionKind::Enter ==> is_recorded(d),
        d.decision == DecisionKind::Skip && d.skip_reason is None ==> !is_recorded(d),
        d.decision == DecisionKind::Skip && d.skip_reason is Some ==> (is_recorded(d) <==> {
            let reason = d.skip_reason->0;
            ||| reason == "neg_risk"@
            ||| reason == "ttr_too_low"@
            ||| reason == "liquidity_too_low"@
            ||| reason == "price_out_of_range"@
            ||| reason == "no_edge"@
            ||| reason == "edge_too_high_phantom"@
            ||| reason == "no_cex_data"@
            ||| reason == "cex_disagrees"@
            ||| reason == "no_sigma"@
            ||| reason == "no_strike"@
            ||| reason == "dedup"@
        }),
{
}

/// Law: B and C go by the fees, the slippage and the cap of the settings and by the same
/// permissive bounds: an edge from a tenth of a cent to thirty cents, ten seconds to
/// resolution and a dollar on offer. A goes by its own defaults, and nobody has a market,
/// an entry or a strike.
pub proof fn fresh_strategies_go_by_the_settings(t: Trinity, settings: SettingsView)
    requires
        t.is_fresh_under(settings),
    ensures
        t.b().config().fee_rate_bps == settings.arb_fee_rate_bps,
        t.b().config().slippage_buffer_bps == settings.arb_slippage_buffer_bps,
        Some(t.b().config().max_shares) == share_cap(settings.arb_max_size_usdc),
        1000 * units(t.b().config().min_edge_per_unit) == one_unit(),
        10 * units(t.b().config().max_edge_per_unit) == 3 * one_unit(),
        t.b().config().min_ttr_seconds == 10,
        units(t.b().config().min_liquidity_usdc) == one_unit(),
        t.c().config().bilateral == t.b().config(),
        t.c().config().cex_tolerance.bits == 0x3fa9_9999_9999_999a,
        t.a().config() == default_lag(),
        forall|id: Seq<char>| #[trigger] t.a().index().lookup(id) is None,
        forall|id: Seq<char>| #[trigger] t.b().index().lookup(id) is None,
        forall|id: Seq<char>| #[trigger] t.c().index().lookup(id) is None,
        t.a().entries().dom() == Set::<(Seq<char>, Seq<char>)>::empty(),
        t.c().strikes().dom() == Set::<Seq<char>>::empty(),
{
    reveal_with_fuel(pow10, 30);
    lemma_units_whole(1);
    assert(whole(1) == one_unit());
    assert(pow10(28) == 1000 * pow10(25));
    assert(units(t.b().config().max_edge_per_unit) == 30 * pow10(26));
}

/// Law: an update concerns the market of the asset alone, and each strategy decides on the
/// books that it knows that market by. B keeps nothing from one update to the next, A
/// notes at most one entry, under this market, and C at most the strike of this market.
pub proof fn updates_concern_their_market_alone(
    u: TrinityUpdate,
    id: Seq<char>,
    books: Map<Seq<char>, BookState>,
    signals: Map<Seq<char>, CexSignal>,
    cex: Map<Seq<char>, CexView>,
    before: Trinity,
    after: Trinity,
    other: Seq<char>,
    direction: Seq<char>,
)
    requires
        update_holds(u, id, books, signals, cex, before, after),
        other != id,
        before.a().index().lookup(id) matches Some((m, _, _)) ==> m.condition_id == id,
    ensures
        after.b() == before.b(),
        after.a().index() == before.a().index(),
        after.c().index() == before.c().index(),
        after.a().config() == before.a().config(),
        after.c().config() == before.c().config(),
        after.a().entries().contains_key((other, direction)) == before.a().entries().contains_key(
            (other, direction),
        ),
        after.a().entries()[(other, direction)] == before.a().entries()[(other, direction)],
        after.c().strikes().contains_key(other) == before.c().strikes().contains_key(other),
        after.c().strikes()[other] == before.c().strikes()[other],
        u.a matches Checked::Value(Some(d)) ==> {
            let found = before.a().index().lookup(id);
            let (market, yes, no) = found->0;
            &&& found is Some
            &&& books.contains_key(yes)
            &&& books.contains_key(no)
            &&& d@.market_id == id
            &&& lag_decision(
                market,
                books[yes]@,
                books[no]@,
                signals,
                before.a().config(),
                before.a().entries(),
                d@.timestamp,
            ) == Some(d@)
        },
        u.b matches Checked::Value(Some(d)) ==> {
            let found = before.b().index().lookup(id);
            let (market, yes, no) = found->0;
            &&& found is Some
            &&& books.contains_key(yes)
            &&& books.contains_key(no)
            &&& pure_decision(
                market,
                books[yes]@,
                books[no]@,
                before.b().config(),
                d@.timestamp,
            ) == Some(d@)
        },
        u.c matches Checked::Value(Some(step)) ==> {
            let found = before.c().index().lookup(id);
            let (market, yes, no) = found->0;
            &&& found is Some
            &&& books.contains_key(yes)
            &&& books.contains_key(no)
            &&& hybrid_step(
                market,
                books[yes]@,
                books[no]@,
                cex,
                after.c().strikes(),
                before.c().config(),
                step@.decision().timestamp,
            ) == Some(step@)
        },
{
}

} // verus!
