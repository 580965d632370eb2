//! The bilateral bot: which markets it follows and what it does on an update.

use crate::bilateral::{
    BilateralArbStrategy, BilateralConfig, BilateralView, market_defined, market_opportunity,
};
use crate::book_state::BookState;
use crate::config::Settings;
use crate::decimal::{
    Checked, Decimal, Num, decimal_option, decimal_quotient, grain, magnitude, one_unit, oquotient,
    pow10, quotient_facts, units,
};
use crate::market_index::{IndexView, text_map};
use crate::string_map::StringMap;
use crate::text::{same_text, texts};
use crate::types::{ArbOpportunity, Market, MarketView};
use vstd::prelude::*;

verus! {

/// How often the stop file is looked for, in seconds.
pub const STOP_POLL_S: u64 = 2;

/// How long a feed may take to stop, in seconds.
pub const SHUTDOWN_WAIT_S: u64 = 5;

/// The most shares that an amount is taken to buy: those at fifty cents.
pub open spec fn share_cap(usdc: Num) -> Option<Num> {
    oquotient(Some(usdc), Some(Num { mant: 5, scale: 1 }))
}

/// The most shares that an amount is taken to buy.
pub fn max_shares_for(usdc: Decimal) -> (r: Option<Decimal>)
    ensures
        decimal_option(r) == share_cap(usdc@),
        quotient_facts(usdc@, Num { mant: 5, scale: 1 }, share_cap(usdc@)),
{
    usdc.checked_div(Decimal::new(5, 1))
}

/// What the settings ask of an opportunity, unless the cap overflows.
pub fn bilateral_config(settings: &Settings) -> (r: Option<BilateralConfig>)
    ensures
        match r {
            Some(c) => share_cap(settings@.arb_max_size_usdc) == Some(c@.max_shares) && c@ == (
            BilateralView {
                fee_rate_bps: settings@.arb_fee_rate_bps,
                min_edge_per_unit: settings@.arb_min_edge_per_unit,
                slippage_buffer_bps: settings@.arb_slippage_buffer_bps,
                max_shares: c@.max_shares,
            }),
            None => share_cap(settings@.arb_max_size_usdc) is None,
        },
{
    match max_shares_for(settings.arb_max_size_usdc) {
        Some(max_shares) => Some(
            BilateralConfig {
                fee_rate_bps: settings.arb_fee_rate_bps,
                min_edge_per_unit: settings.arb_min_edge_per_unit,
                slippage_buffer_bps: settings.arb_slippage_buffer_bps,
                max_shares,
            },
        ),
        None => None,
    }
}

/// What came of a book update.
#[derive(Debug)]
pub enum Dispatch {
    /// No market has the asset.
    NotFollowed,
    /// The market offers nothing.
    Nothing,
    /// The market offers an opportunity.
    Found(ArbOpportunity),
    /// A figure overflows.
    Overflow,
}

/// Looks at the market of the asset whose book was updated.
pub fn dispatch(
    strategy: &BilateralArbStrategy,
    books: &StringMap<BookState>,
    asset_id: &str,
) -> (r: Dispatch)
    ensures
        match strategy.index().market_of(asset_id@) {
            None => r is NotFollowed,
            Some(id) => if !market_defined(strategy.index(), strategy.config(), id, books@) {
                r is Overflow
            } else {
                match r {
                    Dispatch::Found(o) => market_opportunity(
                        strategy.index(),
                        strategy.config(),
                        id,
                        books@,
                        o@.detected_at,
                    ) == Some(o@),
                    Dispatch::Nothing => forall|now: int| #[trigger]
                        market_opportunity(strategy.index(), strategy.config(), id, books@, now)
                            is None,
                    _ => false,
                }
            },
        },
{
    let market_id = match strategy.market_id_for_asset(asset_id) {
        Some(id) => id,
        None => return Dispatch::NotFollowed,
    };
    match strategy.try_evaluate_market(market_id, books) {
        Checked::Overflow => Dispatch::Overflow,
        Checked::Value(Some(o)) => {
            proof {
                assert(market_defined(
                    strategy.index(),
                    strategy.config(),
                    market_id@,
                    books@,
                ));
            }
            Dispatch::Found(o)
        },
        Checked::Value(None) => Dispatch::Nothing,
    }
}

/// The assets of a market with those before.
pub open spec fn with_assets(
    assets: Map<Seq<char>, Seq<char>>,
    market: MarketView,
) -> Map<Seq<char>, Seq<char>> {
    assets.insert(market.yes_token_id, market.condition_id).insert(
        market.no_token_id,
        market.condition_id,
    )
}

/// The markets of a list that are new: those whose YES asset is not in `known`.
pub open spec fn new_markets(
    markets: Seq<MarketView>,
    known: Map<Seq<char>, Seq<char>>,
) -> Seq<MarketView>
    decreases markets.len(),
{
    if markets.len() == 0 {
        markets
    } else {
        let before = new_markets(markets.drop_last(), known);
        if known.contains_key(markets.last().yes_token_id) {
            before
        } else {
            before.push(markets.last())
        }
    }
}

/// An index with all markets of a list added.
pub open spec fn index_with_all(index: IndexView, markets: Seq<MarketView>) -> IndexView
    decreases markets.len(),
{
    if markets.len() == 0 {
        index
    } else {
        index_with_all(index, markets.drop_last()).with(markets.last())
    }
}

/// The assets of all markets of a list.
pub open spec fn assets_of_all(markets: Seq<MarketView>) -> Map<Seq<char>, Seq<char>>
    decreases markets.len(),
{
    if markets.len() == 0 {
        Map::empty()
    } else {
        with_assets(assets_of_all(markets.drop_last()), markets.last())
    }
}

/// The ids of a list of markets.
pub open spec fn ids_of(markets: Seq<MarketView>) -> Seq<Seq<char>> {
    markets.map_values(|m: MarketView| m.condition_id)
}

/// A market that was known is not among the new list.
pub open spec fn is_stale(
    known: Map<Seq<char>, Seq<char>>,
    markets: Seq<MarketView>,
    id: Seq<char>,
) -> bool {
    (exists|asset: Seq<char>| #[trigger] known.contains_key(asset) && known[asset] == id)
        && !ids_of(markets).contains(id)
}

/// An asset of a market among `ids`.
pub open spec fn has_asset_of(index: IndexView, ids: Set<Seq<char>>, asset: Seq<char>) -> bool {
    exists|id: Seq<char>| #[trigger]
        ids.contains(id) && index.market_pairs.contains_key(id) && (index.market_pairs[id].0
            == asset || index.market_pairs[id].1 == asset)
}

/// An index with all markets of a set taken out.
pub open spec fn index_without_all(index: IndexView, ids: Set<Seq<char>>) -> IndexView {
    IndexView {
        asset_to_market: Map::new(
            |a: Seq<char>| index.asset_to_market.contains_key(a) && !has_asset_of(index, ids, a),
            |a: Seq<char>| index.asset_to_market[a],
        ),
        markets: Map::new(
            |id: Seq<char>| index.markets.contains_key(id) && !ids.contains(id),
            |id: Seq<char>| index.markets[id],
        ),
        market_pairs: Map::new(
            |id: Seq<char>| index.market_pairs.contains_key(id) && !ids.contains(id),
            |id: Seq<char>| index.market_pairs[id],
        ),
    }
}

/// The index after a new list of markets: new ones are added, and those that are
/// no longer listed are taken out.
pub open spec fn refreshed(index: IndexView, markets: Seq<MarketView>) -> IndexView {
    let known = index.asset_to_market;
    index_without_all(
        index_with_all(index, new_markets(markets, known)),
        Set::new(|id: Seq<char>| is_stale(known, markets, id)),
    )
}

/// The views of a list of markets.
pub open spec fn views_of(markets: Seq<Market>) -> Seq<MarketView> {
    markets.map_values(|m: Market| m@)
}

/// Whether a text is in a list.
fn listed(ids: &Vec<String>, id: &str) -> (r: bool)
    ensures
        r == texts(ids@).contains(id@),
{
    let mut i: usize = 0;
    while i < ids.len()
        invariant
            i <= ids@.len(),
            forall|j: int| 0 <= j < i ==> #[trigger] ids@[j]@ != id@,
        decreases ids@.len() - i,
    {
        if same_text(ids[i].as_str(), id) {
            assert(texts(ids@)[i as int] == id@);
            return true;
        }
        i += 1;
    }
    assert(!texts(ids@).contains(id@)) by {
        if texts(ids@).contains(id@) {
            let j = choose|j: int| 0 <= j < texts(ids@).len() && texts(ids@)[j] == id@;
            assert(ids@[j]@ == id@);
        }
    }
    false
}

/// Takes a new list of markets in and returns the assets to subscribe to: those
/// of the markets that are new.
pub fn update_strategy(strategy: &mut BilateralArbStrategy, markets: &Vec<Market>) -> (r: StringMap<
    String,
>)
    ensures
        text_map(r@) == assets_of_all(
            new_markets(views_of(markets@), old(strategy).index().asset_to_market),
        ),
        final(strategy).index() == refreshed(old(strategy).index(), views_of(markets@)),
        final(strategy).config() == old(strategy).config(),
{
    let existing = strategy.tracked_assets();
    let ghost known = text_map(existing@);
    let ghost all = views_of(markets@);
    let ghost start = strategy.index();
    let mut additions: StringMap<String> = StringMap::new();
    let mut ids: Vec<String> = Vec::new();
    let mut i: usize = 0;
    proof {
        assert(all.take(0) =~= Seq::empty());
        assert(text_map(additions@) =~= Map::empty());
        assert(texts(ids@) =~= ids_of(all.take(0)));
    }
    while i < markets.len()
        invariant
            i <= markets@.len(),
            all == views_of(markets@),
            known == text_map(existing@),
            texts(ids@) == ids_of(all.take(i as int)),
            text_map(additions@) == assets_of_all(new_markets(all.take(i as int), known)),
            strategy.index() == index_with_all(start, new_markets(all.take(i as int), known)),
            strategy.config() == old(strategy).config(),
        decreases markets@.len() - i,
    {
        let m = &markets[i];
        let ghost done = all.take(i as int);
        let ghost next = all.take(i + 1);
        let ghost ids0 = ids@;
        proof {
            assert(next.drop_last() =~= done);
            assert(next.last() == m@);
            assert(next =~= done.push(m@));
        }
        ids.push(m.condition_id.clone());
        assert(texts(ids@) =~= ids_of(next)) by {
            assert(texts(ids@) =~= texts(ids0).push(m@.condition_id));
            assert(ids_of(next) =~= ids_of(done).push(m@.condition_id));
        }
        if !existing.contains_key(m.yes_token_id.as_str()) {
            let ghost added = text_map(additions@);
            additions.insert(m.yes_token_id.clone(), m.condition_id.clone());
            additions.insert(m.no_token_id.clone(), m.condition_id.clone());
            strategy.register_market(m.clone());
            proof {
                assert(text_map(additions@) =~= with_assets(added, m@));
                let fresh = new_markets(next, known);
                assert(fresh.drop_last() =~= new_markets(done, known));
                assert(fresh.last() == m@);
            }
        }
        i += 1;
    }
    proof {
        assert(all.take(markets@.len() as int) =~= all);
    }
    let ghost grown = strategy.index();
    let ghost mut gone: Set<Seq<char>> = Set::empty();
    proof {
        assert(index_without_all(grown, gone) =~~= grown);
    }
    let keys = existing.keys();
    let ghost list = existing.key_list();
    let mut k: usize = 0;
    while k < keys.len()
        invariant
            k <= keys@.len(),
            texts(keys@) == list,
            forall|a: Seq<char>| #[trigger] existing@.contains_key(a) <==> list.contains(a),
            known == text_map(existing@),
            texts(ids@) == ids_of(all),
            strategy.index() == index_without_all(grown, gone),
            strategy.config() == old(strategy).config(),
            forall|id: Seq<char>| #[trigger] gone.contains(id) ==> is_stale(known, all, id),
            forall|j: int|
                0 <= j < k ==> (!ids_of(all).contains(known[#[trigger] list[j]])
                    ==> gone.contains(known[list[j]])),
        decreases keys@.len() - k,
    {
        let asset = &keys[k];
        proof {
            assert(list[k as int] == asset@);
            assert(list.contains(asset@));
            assert(existing@.contains_key(asset@));
        }
        if let Some(id) = existing.get(asset.as_str()) {
            if !listed(&ids, id.as_str()) {
                strategy.unregister_market(id.as_str());
                proof {
                    assert(known.contains_key(asset@) && known[asset@] == id@);
                    assert(is_stale(known, all, id@));
                    lemma_without_one_more(grown, gone, id@);
                    gone = gone.insert(id@);
                }
            }
        }
        k += 1;
    }
    proof {
        let stale = Set::new(|id: Seq<char>| is_stale(known, all, id));
        assert forall|id: Seq<char>| stale.contains(id) implies gone.contains(id) by {
            let a = choose|a: Seq<char>| #[trigger] known.contains_key(a) && known[a] == id;
            assert(existing@.contains_key(a));
            assert(list.contains(a));
            let j = choose|j: int| 0 <= j < list.len() && list[j] == a;
            assert(known[list[j]] == id);
        }
        assert(gone =~= stale);
    }
    additions
}

proof fn lemma_without_one_more(index: IndexView, ids: Set<Seq<char>>, id: Seq<char>)
    ensures
        index_without_all(index, ids).without(id) == index_without_all(index, ids.insert(id)),
{
    let more = ids.insert(id);
    let before = index_without_all(index, ids);
    let left = before.without(id);
    let right = index_without_all(index, more);
    assert forall|a: Seq<char>| left.asset_to_market.contains_key(a)
        == right.asset_to_market.contains_key(a) by {
        if has_asset_of(index, ids, a) {
            let w = choose|w: Seq<char>| #[trigger]
                ids.contains(w) && index.market_pairs.contains_key(w) && (index.market_pairs[w].0
                    == a || index.market_pairs[w].1 == a);
            assert(more.contains(w));
            assert(has_asset_of(index, more, a));
        }
        if has_asset_of(index, more, a) && !has_asset_of(index, ids, a) {
            let w = choose|w: Seq<char>| #[trigger]
                more.contains(w) && index.market_pairs.contains_key(w) && (index.market_pairs[w].0
                    == a || index.market_pairs[w].1 == a);
            if w != id {
                assert(ids.contains(w));
            }
        }
        if index.market_pairs.contains_key(id) && (index.market_pairs[id].0 == a
            || index.market_pairs[id].1 == a) {
            assert(more.contains(id));
            assert(has_asset_of(index, more, a));
            if ids.contains(id) {
                assert(has_asset_of(index, ids, a));
            }
        }
    }
    assert(left.asset_to_market =~= right.asset_to_market);
    assert(left.markets =~= right.markets);
    assert(left.market_pairs =~= right.market_pairs);
}

/// Adding markets takes none away.
proof fn lemma_index_grows(index: IndexView, markets: Seq<MarketView>, id: Seq<char>)
    requires
        index.lookup(id) is Some,
    ensures
        index_with_all(index, markets).lookup(id) is Some,
    decreases markets.len(),
{
    if markets.len() > 0 {
        lemma_index_grows(index, markets.drop_last(), id);
    }
}

/// Every market of a list that is new is added.
proof fn lemma_new_market_is_added(
    index: IndexView,
    markets: Seq<MarketView>,
    known: Map<Seq<char>, Seq<char>>,
    i: int,
)
    requires
        0 <= i < markets.len(),
        !known.contains_key(markets[i].yes_token_id),
    ensures
        index_with_all(index, new_markets(markets, known)).lookup(markets[i].condition_id) is Some,
    decreases markets.len(),
{
    let rest = markets.drop_last();
    let before = new_markets(rest, known);
    let after = new_markets(markets, known);
    if i < rest.len() {
        lemma_new_market_is_added(index, rest, known, i);
    }
    if !known.contains_key(markets.last().yes_token_id) {
        assert(after.drop_last() =~= before);
        assert(after.last() == markets.last());
    }
}

/// Law: after a new list of markets, every market on it is found that was found
/// before or whose YES asset is new.
pub proof fn listed_markets_are_found(index: IndexView, markets: Seq<MarketView>, i: int)
    requires
        0 <= i < markets.len(),
        index.lookup(markets[i].condition_id) is Some || !index.asset_to_market.contains_key(
            markets[i].yes_token_id,
        ),
    ensures
        refreshed(index, markets).lookup(markets[i].condition_id) is Some,
{
    let id = markets[i].condition_id;
    let known = index.asset_to_market;
    if index.lookup(id) is Some {
        lemma_index_grows(index, new_markets(markets, known), id);
    } else {
        lemma_new_market_is_added(index, markets, known, i);
    }
    assert(ids_of(markets)[i] == id);
    assert(!is_stale(known, markets, id));
}

/// Law: after a new list of markets, no market that was known before and is no
/// longer listed is found.
pub proof fn stale_markets_are_gone(index: IndexView, markets: Seq<MarketView>, id: Seq<char>)
    requires
        is_stale(index.asset_to_market, markets, id),
    ensures
        refreshed(index, markets).lookup(id) is None,
{
}

/// Law: an amount is taken to buy twice as many shares as it has dollars, but for one
/// rounding, and nothing is divided but by fifty cents.
pub proof fn shares_are_capped_at_fifty_cents(usdc: Num, shares: Num)
    requires
        quotient_facts(usdc, Num { mant: 5, scale: 1 }, share_cap(usdc)),
        share_cap(usdc) == Some(shares),
    ensures
        share_cap(usdc) == decimal_quotient(usdc, Num { mant: 5, scale: 1 }),
        one_unit() * magnitude(2 * units(usdc) - units(shares)) <= grain(shares),
{
    let (u, h) = (one_unit(), units(Num { mant: 5, scale: 1 }));
    reveal_with_fuel(pow10, 30);
    assert(2 * h == u);
    let (a, s, g) = (units(usdc), units(shares), grain(shares));
    assert(u * magnitude(a * u - s * h) <= h * g);
    let off = 2 * a - s;
    assert(a * u - s * h == off * h) by (nonlinear_arith)
        requires
            2 * h == u,
            off == 2 * a - s,
    ;
    assert(magnitude(off * h) == magnitude(off) * h) by (nonlinear_arith)
        requires
            h > 0,
            magnitude(off * h) == (if off * h >= 0 {
                off * h
            } else {
                -(off * h)
            }),
            magnitude(off) == (if off >= 0 {
                off
            } else {
                -off
            }),
    ;
    let m = magnitude(off);
    assert(u * m <= g) by (nonlinear_arith)
        requires
            u * (m * h) <= h * g,
            h > 0,
    ;
}

/// Law: a market of a list is new just where its YES asset was not known, and the new ones
/// keep their order.
pub proof fn markets_are_new_by_their_yes_asset(
    markets: Seq<MarketView>,
    market: MarketView,
    known: Map<Seq<char>, Seq<char>>,
)
    ensures
        new_markets(Seq::empty(), known).len() == 0,
        known.contains_key(market.yes_token_id) ==> new_markets(markets.push(market), known)
            == new_markets(markets, known),
        !known.contains_key(market.yes_token_id) ==> new_markets(markets.push(market), known)
            == new_markets(markets, known).push(market),
{
    assert(markets.push(market).drop_last() =~= markets);
}

/// Law: the markets of a list are added one after the other, and the assets to subscribe to
/// are both assets of each of them, under the id of the last market that has them.
pub proof fn markets_are_added_with_both_assets(
    index: IndexView,
    markets: Seq<MarketView>,
    market: MarketView,
    asset: Seq<char>,
)
    ensures
        index_with_all(index, Seq::empty()) == index,
        index_with_all(index, markets.push(market)) == index_with_all(index, markets).with(market),
        assets_of_all(Seq::empty()) == Map::<Seq<char>, Seq<char>>::empty(),
        ({
            let (before, after) = (assets_of_all(markets), assets_of_all(markets.push(market)));
            &&& after.contains_key(market.yes_token_id)
            &&& after[market.yes_token_id] == market.condition_id
            &&& after.contains_key(market.no_token_id)
            &&& after[market.no_token_id] == market.condition_id
            &&& asset != market.yes_token_id && asset != market.no_token_id ==> after.contains_key(
                asset,
            ) == before.contains_key(asset) && after[asset] == before[asset]
        }),
{
    assert(markets.push(market).drop_last() =~= markets);
}

/// Law: after a new list, a market is found as the new markets left it unless it was known
/// and is not listed. An asset goes with the market that has it, and no other does.
pub proof fn only_unlisted_markets_are_taken_out(
    index: IndexView,
    markets: Seq<MarketView>,
    id: Seq<char>,
    asset: Seq<char>,
)
    ensures
        ({
            let known = index.asset_to_market;
            let grown = index_with_all(index, new_markets(markets, known));
            let after = refreshed(index, markets);
            let was_known = exists|a: Seq<char>| #[trigger]
                known.contains_key(a) && known[a] == id;
            let is_listed = exists|i: int|
                0 <= i < markets.len() && (#[trigger] markets[i]).condition_id == id;
            let pair = grown.market_pairs[id];
            &&& was_known && !is_listed ==> after.lookup(id) is None
            &&& !was_known || is_listed ==> after.lookup(id) == grown.lookup(id)
            &&& was_known && !is_listed && grown.market_pairs.contains_key(id) ==> after.market_of(
                pair.0,
            ) is None && after.market_of(pair.1) is None
            &&& after.market_of(asset) is Some ==> after.market_of(asset) == grown.market_of(asset)
            &&& grown.market_of(asset) is Some && after.market_of(asset) is None ==> exists|
                gone: Seq<char>,
            | #[trigger]
                is_stale(known, markets, gone) && grown.market_pairs.contains_key(gone) && (
                grown.market_pairs[gone].0 == asset || grown.market_pairs[gone].1 == asset)
        }),
{
    let known = index.asset_to_market;
    let grown = index_with_all(index, new_markets(markets, known));
    let stale = Set::new(|x: Seq<char>| is_stale(known, markets, x));
    let is_listed = exists|i: int|
        0 <= i < markets.len() && (#[trigger] markets[i]).condition_id == id;
    assert(ids_of(markets).contains(id) <==> is_listed) by {
        if is_listed {
            let i = choose|i: int|
                0 <= i < markets.len() && (#[trigger] markets[i]).condition_id == id;
            assert(ids_of(markets)[i] == id);
        }
        if ids_of(markets).contains(id) {
            let i = choose|i: int| 0 <= i < ids_of(markets).len() && ids_of(markets)[i] == id;
            assert(markets[i].condition_id == id);
        }
    }
    assert(stale.contains(id) <==> is_stale(known, markets, id));
    if is_stale(known, markets, id) && grown.market_pairs.contains_key(id) {
        assert(stale.contains(id));
        assert(has_asset_of(grown, stale, grown.market_pairs[id].0));
        assert(has_asset_of(grown, stale, grown.market_pairs[id].1));
    }
    if has_asset_of(grown, stale, asset) {
        let gone = choose|gone: Seq<char>| #[trigger]
            stale.contains(gone) && grown.market_pairs.contains_key(gone) && (
            grown.market_pairs[gone].0 == asset || grown.market_pairs[gone].1 == asset);
        assert(is_stale(known, markets, gone));
    }
}

} // verus!
