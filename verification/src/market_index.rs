//! The markets that a strategy follows, found by their assets.

use crate::string_map::StringMap;
use crate::types::{Market, MarketView};
use vstd::prelude::*;

verus! {

/// Markets by condition id, with their assets.
pub struct MarketIndex {
    asset_to_market: StringMap<String>,
    markets: StringMap<Market>,
    market_pairs: StringMap<(String, String)>,
}

/// What a [`MarketIndex`] holds.
#[verifier::ext_equal]
pub struct IndexView {
    /// The market of each asset.
    pub asset_to_market: Map<Seq<char>, Seq<char>>,
    /// Each market.
    pub markets: Map<Seq<char>, MarketView>,
    /// The two assets of each market, YES first.
    pub market_pairs: Map<Seq<char>, (Seq<char>, Seq<char>)>,
}

/// The views of the texts of a map.
pub open spec fn text_map(m: Map<Seq<char>, String>) -> Map<Seq<char>, Seq<char>> {
    m.map_values(|s: String| s@)
}

/// The views of the markets of a map.
pub open spec fn market_map(m: Map<Seq<char>, Market>) -> Map<Seq<char>, MarketView> {
    m.map_values(|x: Market| x@)
}

/// The views of the pairs of texts of a map.
pub open spec fn pair_map(m: Map<Seq<char>, (String, String)>) -> Map<
    Seq<char>,
    (Seq<char>, Seq<char>),
> {
    m.map_values(|p: (String, String)| (p.0@, p.1@))
}

impl IndexView {
    /// The index of no markets.
    pub open spec fn empty() -> IndexView {
        IndexView {
            asset_to_market: Map::empty(),
            markets: Map::empty(),
            market_pairs: Map::empty(),
        }
    }

    /// The index with `market` added.
    pub open spec fn with(self, market: MarketView) -> IndexView {
        let id = market.condition_id;
        IndexView {
            asset_to_market: self.asset_to_market.insert(market.yes_token_id, id).insert(
                market.no_token_id,
                id,
            ),
            markets: self.markets.insert(id, market),
            market_pairs: self.market_pairs.insert(
                id,
                (market.yes_token_id, market.no_token_id),
            ),
        }
    }

    /// The index with the market `id` taken out.
    pub open spec fn without(self, id: Seq<char>) -> IndexView {
        IndexView {
            asset_to_market: if self.market_pairs.contains_key(id) {
                self.asset_to_market.remove(self.market_pairs[id].0).remove(
                    self.market_pairs[id].1,
                )
            } else {
                self.asset_to_market
            },
            markets: self.markets.remove(id),
            market_pairs: self.market_pairs.remove(id),
        }
    }

    /// The market `id` with its two assets.
    pub open spec fn lookup(self, id: Seq<char>) -> Option<(MarketView, Seq<char>, Seq<char>)> {
        if self.markets.contains_key(id) && self.market_pairs.contains_key(id) {
            Some((self.markets[id], self.market_pairs[id].0, self.market_pairs[id].1))
        } else {
            None
        }
    }

    /// The market of an asset.
    pub open spec fn market_of(self, asset_id: Seq<char>) -> Option<Seq<char>> {
        if self.asset_to_market.contains_key(asset_id) {
            Some(self.asset_to_market[asset_id])
        } else {
            None
        }
    }
}

impl View for MarketIndex {
    type V = IndexView;

    closed spec fn view(&self) -> IndexView {
        IndexView {
            asset_to_market: text_map(self.asset_to_market@),
            markets: market_map(self.markets@),
            market_pairs: pair_map(self.market_pairs@),
        }
    }
}

impl MarketIndex {
    /// The index of no markets.
    pub fn new() -> (r: MarketIndex)
        ensures
            r@ == IndexView::empty(),
    {
        let r = MarketIndex {
            asset_to_market: StringMap::new(),
            markets: StringMap::new(),
            market_pairs: StringMap::new(),
        };
        assert(r@ =~~= IndexView::empty());
        r
    }

    /// Adds a market.
    pub fn register(&mut self, market: Market)
        ensures
            final(self)@ == old(self)@.with(market@),
    {
        let a = market.yes_token_id.clone();
        let b = market.no_token_id.clone();
        let id = market.condition_id.clone();
        self.asset_to_market.insert(a.clone(), id.clone());
        self.asset_to_market.insert(b.clone(), id.clone());
        self.market_pairs.insert(id.clone(), (a, b));
        self.markets.insert(id, market);
        assert(self@ =~~= old(self)@.with(market@));
    }

    /// Takes a market out.
    pub fn unregister(&mut self, condition_id: &str)
        ensures
            final(self)@ == old(self)@.without(condition_id@),
    {
        if let Some((a, b)) = self.market_pairs.remove(condition_id) {
            let _ = self.asset_to_market.remove(a.as_str());
            let _ = self.asset_to_market.remove(b.as_str());
        }
        let _ = self.markets.remove(condition_id);
        assert(self@ =~~= old(self)@.without(condition_id@));
    }

    /// The market of an asset.
    pub fn market_id_for_asset(&self, asset_id: &str) -> (r: Option<&str>)
        ensures
            match r {
                Some(id) => self@.market_of(asset_id@) == Some(id@),
                None => self@.market_of(asset_id@) is None,
            },
    {
        match self.asset_to_market.get(asset_id) {
            Some(id) => Some(id.as_str()),
            None => None,
        }
    }

    /// The market of every asset.
    pub fn tracked_assets(&self) -> (r: StringMap<String>)
        ensures
            text_map(r@) == self@.asset_to_market,
    {
        self.asset_to_market.duplicate()
    }

    /// A market.
    pub fn get(&self, condition_id: &str) -> (r: Option<&Market>)
        ensures
            match r {
                Some(m) => self@.markets.contains_key(condition_id@) && self@.markets[condition_id@]
                    == m@,
                None => !self@.markets.contains_key(condition_id@),
            },
    {
        self.markets.get(condition_id)
    }

    /// A market with its two assets.
    pub fn find(&self, condition_id: &str) -> (r: Option<(&Market, &str, &str)>)
        ensures
            match r {
                Some(f) => self@.lookup(condition_id@) == Some((f.0@, f.1@, f.2@)),
                None => self@.lookup(condition_id@) is None,
            },
    {
        match (self.markets.get(condition_id), self.market_pairs.get(condition_id)) {
            (Some(market), Some(pair)) => Some((market, pair.0.as_str(), pair.1.as_str())),
            _ => None,
        }
    }
}

/// Law: a market that was added is found under its id and under both its assets.
pub proof fn registered_market_is_found(index: IndexView, market: MarketView)
    ensures
        index.with(market).lookup(market.condition_id) == Some(
            (market, market.yes_token_id, market.no_token_id),
        ),
        index.with(market).market_of(market.yes_token_id) == Some(market.condition_id),
        index.with(market).market_of(market.no_token_id) == Some(market.condition_id),
{
}

/// Law: a market that was taken out is not found, nor is any asset that it had.
pub proof fn unregistered_market_is_gone(index: IndexView, id: Seq<char>)
    ensures
        index.without(id).lookup(id) is None,
        index.lookup(id) matches Some((_, a, b)) ==> index.without(id).market_of(a) is None
            && index.without(id).market_of(b) is None,
{
}

/// Law: taking a market out undoes adding it, where neither it nor its assets
/// were known before.
pub proof fn unregister_undoes_register(index: IndexView, market: MarketView)
    requires
        !index.markets.contains_key(market.condition_id),
        !index.market_pairs.contains_key(market.condition_id),
        !index.asset_to_market.contains_key(market.yes_token_id),
        !index.asset_to_market.contains_key(market.no_token_id),
    ensures
        index.with(market).without(market.condition_id) == index,
{
    assert(index.with(market).without(market.condition_id) =~~= index);
}

/// Law: adding or taking out a market leaves every other market as it is, and every asset
/// that is not one of its own.
pub proof fn other_markets_stay(
    index: IndexView,
    market: MarketView,
    id: Seq<char>,
    other: Seq<char>,
    asset: Seq<char>,
)
    ensures
        other != market.condition_id ==> index.with(market).lookup(other) == index.lookup(other),
        asset != market.yes_token_id && asset != market.no_token_id ==> index.with(
            market,
        ).market_of(asset) == index.market_of(asset),
        other != id ==> index.without(id).lookup(other) == index.lookup(other),
        !index.market_pairs.contains_key(id) ==> index.without(id).market_of(asset)
            == index.market_of(asset),
        index.market_pairs.contains_key(id) ==> {
            let (a, b) = index.market_pairs[id];
            &&& asset == a || asset == b ==> index.without(id).market_of(asset) is None
            &&& asset != a && asset != b ==> index.without(id).market_of(asset) == index.market_of(
                asset,
            )
        },
{
}

/// Law: nothing is found in an empty index; what is found is the market and the pair of
/// assets that the index holds under the id, and nothing is found where one is missing.
pub proof fn lookups_find_what_is_held(index: IndexView, id: Seq<char>, asset: Seq<char>)
    ensures
        IndexView::empty().lookup(id) is None,
        IndexView::empty().market_of(asset) is None,
        index.lookup(id) is Some <==> index.markets.contains_key(id)
            && index.market_pairs.contains_key(id),
        index.lookup(id) matches Some(f) ==> f.0 == index.markets[id] && f.1
            == index.market_pairs[id].0 && f.2 == index.market_pairs[id].1,
        index.market_of(asset) is Some <==> index.asset_to_market.contains_key(asset),
        index.market_of(asset) matches Some(m) ==> m == index.asset_to_market[asset],
{
}

} // verus!
