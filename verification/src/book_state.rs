//! Order books, one per asset.
//!
//! - A snapshot replaces all levels of a side.
//! - A change of size zero takes a level off.
//! - Any other change sets the size of a level, adding the level if need be.

use crate::decimal::{Decimal, Num, lemma_units_whole, units, whole, whole_num};
use vstd::prelude::*;

verus! {

/// The levels of one side of a book: under each price, by value, the price as it
/// was first written and the size on offer.
pub type Levels = Map<int, (Num, Num)>;

/// The levels after `size` was set at `price`.
pub open spec fn with_level(levels: Levels, price: Num, size: Num) -> Levels {
    let u = units(price);
    if levels.contains_key(u) {
        levels.insert(u, (levels[u].0, size))
    } else {
        levels.insert(u, (price, size))
    }
}

/// The levels after a change of `price` to `size`.
pub open spec fn after_delta(levels: Levels, price: Num, size: Num) -> Levels {
    if units(size) <= 0 {
        levels.remove(units(price))
    } else {
        with_level(levels, price, size)
    }
}

/// The levels that a snapshot lists. Those without a positive price and a
/// positive size do not count, and of two at one price the later size does.
pub open spec fn listed_levels(raw: Seq<(Num, Num)>) -> Levels
    decreases raw.len(),
{
    if raw.len() == 0 {
        Map::empty()
    } else {
        let before = listed_levels(raw.drop_last());
        let (price, size) = raw.last();
        if units(price) > 0 && units(size) > 0 {
            with_level(before, price, size)
        } else {
            before
        }
    }
}

/// `u` is the highest price, by value, or with `top` unset the lowest.
pub open spec fn is_best(levels: Levels, top: bool, u: int) -> bool {
    &&& levels.contains_key(u)
    &&& forall|v: int| #[trigger]
        levels.contains_key(v) ==> if top {
            v <= u
        } else {
            v >= u
        }
}

/// The level at the highest price, or with `top` unset the lowest.
pub open spec fn best_level(levels: Levels, top: bool) -> Option<(Num, Num)> {
    if exists|u: int| is_best(levels, top, u) {
        Some(levels[choose|u: int| is_best(levels, top, u)])
    } else {
        None
    }
}

/// Each level stands under the value of its own price.
pub open spec fn keyed_by_price(levels: Levels) -> bool {
    forall|u: int| #[trigger] levels.contains_key(u) ==> units(levels[u].0) == u
}

/// The views of a list of pairs of amounts.
pub open spec fn pairs(raw: Seq<(Decimal, Decimal)>) -> Seq<(Num, Num)> {
    raw.map_values(|p: (Decimal, Decimal)| (p.0@, p.1@))
}

spec fn ascending(s: Seq<(Decimal, Decimal)>) -> bool {
    forall|i: int, j: int|
        0 <= i < j < s.len() ==> units(#[trigger] s[i].0@) < units(#[trigger] s[j].0@)
}

spec fn price_stands_at(s: Seq<(Decimal, Decimal)>, u: int, i: int) -> bool {
    0 <= i < s.len() && units(s[i].0@) == u
}

spec fn level_map(s: Seq<(Decimal, Decimal)>) -> Levels {
    Map::new(
        |u: int| exists|i: int| price_stands_at(s, u, i),
        |u: int|
            {
                let i = choose|i: int| price_stands_at(s, u, i);
                (s[i].0@, s[i].1@)
            },
    )
}

proof fn lemma_level(s: Seq<(Decimal, Decimal)>, i: int)
    requires
        ascending(s),
        0 <= i < s.len(),
    ensures
        level_map(s).contains_key(units(s[i].0@)),
        level_map(s)[units(s[i].0@)] == (s[i].0@, s[i].1@),
{
    let u = units(s[i].0@);
    assert(price_stands_at(s, u, i));
    let j = choose|j: int| price_stands_at(s, u, j);
    assert(price_stands_at(s, u, j));
    if i < j {
        assert(units(s[i].0@) < units(s[j].0@));
    }
    if j < i {
        assert(units(s[j].0@) < units(s[i].0@));
    }
}

proof fn lemma_is_level_map(s: Seq<(Decimal, Decimal)>, m: Levels)
    requires
        ascending(s),
        forall|i: int|
            0 <= i < s.len() ==> m.contains_key(units(#[trigger] s[i].0@)) && m[units(s[i].0@)] == (
                s[i].0@,
                s[i].1@,
            ),
        forall|u: int| #[trigger] m.contains_key(u) ==> exists|i: int| price_stands_at(s, u, i),
    ensures
        level_map(s) == m,
{
    assert forall|u: int| #[trigger] level_map(s).contains_key(u) implies m.contains_key(u) && m[u]
        == level_map(s)[u] by {
        let i = choose|i: int| price_stands_at(s, u, i);
        lemma_level(s, i);
    }
    assert(level_map(s) =~= m);
}

/// One side of a book, bids or asks, its levels in order of price.
#[derive(Debug)]
pub struct BookSide {
    levels: Vec<(Decimal, Decimal)>,
}

impl View for BookSide {
    type V = Levels;

    closed spec fn view(&self) -> Levels {
        level_map(self.levels@)
    }
}

impl BookSide {
    #[verifier::type_invariant]
    spec fn well_formed(self) -> bool {
        ascending(self.levels@)
    }

    /// A side without levels.
    pub fn new() -> (r: BookSide)
        ensures
            r@ == Levels::empty(),
    {
        let r = BookSide { levels: Vec::new() };
        assert(r@ =~= Levels::empty());
        r
    }

    /// Price and size of each level, in ascending order of price.
    pub fn levels(&self) -> (r: &Vec<(Decimal, Decimal)>)
        ensures
            keyed_by_price(self@),
            forall|i: int, j: int|
                0 <= i < j < r@.len() ==> units(#[trigger] r@[i].0@) < units(#[trigger] r@[j].0@),
            forall|i: int|
                0 <= i < r@.len() ==> self@.contains_key(units(#[trigger] r@[i].0@))
                    && self@[units(r@[i].0@)] == (r@[i].0@, r@[i].1@),
            forall|u: int| #[trigger]
                self@.contains_key(u) ==> exists|i: int|
                    0 <= i < r@.len() && units(#[trigger] r@[i].0@) == u,
    {
        proof {
            use_type_invariant(self);
            lemma_levels(self.levels@);
            assert forall|u: int| #[trigger] self@.contains_key(u) implies exists|i: int|
                0 <= i < self.levels@.len() && units(#[trigger] self.levels@[i].0@) == u by {
                let i = choose|i: int| price_stands_at(self.levels@, u, i);
                assert(units(self.levels@[i].0@) == u);
            }
        }
        &self.levels
    }

    /// The number of levels below `price`.
    fn below(&self, price: &Decimal) -> (r: usize)
        requires
            ascending(self.levels@),
        ensures
            r <= self.levels@.len(),
            forall|i: int| 0 <= i < r ==> units(#[trigger] self.levels@[i].0@) < units(price@),
            forall|i: int|
                r <= i < self.levels@.len() ==> units(#[trigger] self.levels@[i].0@) >= units(
                    price@,
                ),
    {
        let mut i: usize = 0;
        while i < self.levels.len() && self.levels[i].0 < *price
            invariant
                i <= self.levels@.len(),
                ascending(self.levels@),
                forall|j: int| 0 <= j < i ==> units(#[trigger] self.levels@[j].0@) < units(price@),
            decreases self.levels@.len() - i,
        {
            i += 1;
        }
        proof {
            assert forall|j: int| i <= j < self.levels@.len() implies units(
                #[trigger] self.levels@[j].0@,
            ) >= units(price@) by {
                if i < j {
                    assert(units(self.levels@[i as int].0@) < units(self.levels@[j].0@));
                }
            }
        }
        i
    }

    /// Sets the size at a price.
    fn set_level(&mut self, price: Decimal, size: Decimal)
        ensures
            final(self)@ == with_level(old(self)@, price@, size@),
    {
        proof {
            use_type_invariant(&*self);
        }
        let ghost before = self.levels@;
        let ghost u = units(price@);
        let ghost goal = with_level(level_map(before), price@, size@);
        let i: usize = self.below(&price);
        let found: bool = i < self.levels.len() && self.levels[i].0 == price;
        let mut levels: Vec<(Decimal, Decimal)> = Vec::new();
        std::mem::swap(&mut levels, &mut self.levels);
        if found {
            let kept: Decimal = levels[i].0;
            levels.set(i, (kept, size));
            proof {
                let now = levels@;
                lemma_level(before, i as int);
                assert forall|a: int, b: int| 0 <= a < b < now.len() implies units(
                    #[trigger] now[a].0@,
                ) < units(#[trigger] now[b].0@) by {
                    assert(units(before[a].0@) < units(before[b].0@));
                }
                assert forall|j: int| 0 <= j < now.len() implies goal.contains_key(
                    units(#[trigger] now[j].0@),
                ) && goal[units(now[j].0@)] == (now[j].0@, now[j].1@) by {
                    lemma_level(before, j);
                    if j < i {
                        assert(units(before[j].0@) < units(before[i as int].0@));
                    }
                    if j > i {
                        assert(units(before[i as int].0@) < units(before[j].0@));
                    }
                }
                assert forall|v: int| #[trigger] goal.contains_key(v) implies exists|j: int|
                    price_stands_at(now, v, j) by {
                    if v == u {
                        assert(price_stands_at(now, v, i as int));
                    } else {
                        let j = choose|j: int| price_stands_at(before, v, j);
                        assert(price_stands_at(now, v, j));
                    }
                }
                lemma_is_level_map(now, goal);
            }
        } else {
            levels.insert(i, (price, size));
            proof {
                let now = levels@;
                assert(now == before.insert(i as int, (price, size)));
                assert forall|j: int| 0 <= j < before.len() implies units(
                    #[trigger] before[j].0@,
                ) != u by {
                    if j > i {
                        assert(units(before[i as int].0@) < units(before[j].0@));
                    }
                }
                assert(!level_map(before).contains_key(u)) by {
                    if level_map(before).contains_key(u) {
                        let j = choose|j: int| price_stands_at(before, u, j);
                        assert(units(before[j].0@) == u);
                    }
                }
                assert forall|a: int, b: int| 0 <= a < b < now.len() implies units(
                    #[trigger] now[a].0@,
                ) < units(#[trigger] now[b].0@) by {
                    let a0 = if a < i {
                        a
                    } else {
                        a - 1
                    };
                    let b0 = if b < i {
                        b
                    } else {
                        b - 1
                    };
                    if a != i && b != i {
                        assert(now[a] == before[a0] && now[b] == before[b0]);
                        assert(units(before[a0].0@) < units(before[b0].0@));
                    } else if a == i {
                        assert(now[b] == before[b0]);
                        assert(units(before[b0].0@) >= u);
                    } else {
                        assert(now[a] == before[a0]);
                        assert(units(before[a0].0@) < u);
                    }
                }
                assert forall|j: int| 0 <= j < now.len() implies goal.contains_key(
                    units(#[trigger] now[j].0@),
                ) && goal[units(now[j].0@)] == (now[j].0@, now[j].1@) by {
                    if j < i {
                        assert(now[j] == before[j]);
                        lemma_level(before, j);
                    }
                    if j > i {
                        assert(now[j] == before[j - 1]);
                        lemma_level(before, j - 1);
                    }
                }
                assert forall|v: int| #[trigger] goal.contains_key(v) implies exists|j: int|
                    price_stands_at(now, v, j) by {
                    if v == u {
                        assert(price_stands_at(now, v, i as int));
                    } else {
                        let j = choose|j: int| price_stands_at(before, v, j);
                        if j < i {
                            assert(price_stands_at(now, v, j));
                        } else {
                            assert(now[j + 1] == before[j]);
                            assert(price_stands_at(now, v, j + 1));
                        }
                    }
                }
                lemma_is_level_map(now, goal);
            }
        }
        self.levels = levels;
    }

    /// Takes the level at a price off.
    fn drop_level(&mut self, price: Decimal)
        ensures
            final(self)@ == old(self)@.remove(units(price@)),
    {
        proof {
            use_type_invariant(&*self);
        }
        let ghost before = self.levels@;
        let ghost u = units(price@);
        let ghost goal = level_map(before).remove(u);
        let i: usize = self.below(&price);
        if i < self.levels.len() && self.levels[i].0 == price {
            let mut levels: Vec<(Decimal, Decimal)> = Vec::new();
            std::mem::swap(&mut levels, &mut self.levels);
            let _ = levels.remove(i);
            proof {
                let now = levels@;
                assert(now == before.remove(i as int));
                assert forall|a: int, b: int| 0 <= a < b < now.len() implies units(
                    #[trigger] now[a].0@,
                ) < units(#[trigger] now[b].0@) by {
                    let a0 = if a < i {
                        a
                    } else {
                        a + 1
                    };
                    let b0 = if b < i {
                        b
                    } else {
                        b + 1
                    };
                    assert(units(before[a0].0@) < units(before[b0].0@));
                }
                assert forall|j: int| 0 <= j < now.len() implies goal.contains_key(
                    units(#[trigger] now[j].0@),
                ) && goal[units(now[j].0@)] == (now[j].0@, now[j].1@) by {
                    if j < i {
                        lemma_level(before, j);
                        assert(units(before[j].0@) < units(before[i as int].0@));
                    } else {
                        lemma_level(before, j + 1);
                        assert(units(before[i as int].0@) < units(before[j + 1].0@));
                    }
                }
                assert forall|v: int| #[trigger] goal.contains_key(v) implies exists|j: int|
                    price_stands_at(now, v, j) by {
                    let j = choose|j: int| price_stands_at(before, v, j);
                    if j < i {
                        assert(price_stands_at(now, v, j));
                    } else {
                        assert(price_stands_at(now, v, j - 1));
                    }
                }
                lemma_is_level_map(now, goal);
            }
            self.levels = levels;
        } else {
            proof {
                assert(!level_map(before).contains_key(u)) by {
                    if level_map(before).contains_key(u) {
                        let j = choose|j: int| price_stands_at(before, u, j);
                        assert(units(before[j].0@) == u);
                        if j > i {
                            assert(units(before[i as int].0@) < units(before[j].0@));
                        }
                    }
                }
                assert(goal =~= level_map(before));
            }
        }
    }

    /// Replaces all levels by those of a snapshot.
    pub fn replace_levels(&mut self, raw: &[(Decimal, Decimal)])
        ensures
            final(self)@ == listed_levels(pairs(raw@)),
    {
        let mut side = BookSide::new();
        let zero = Decimal::zero();
        proof {
            lemma_units_whole(0);
            assert(whole(0) == 0);
            assert(pairs(raw@).take(0) =~= Seq::empty());
        }
        let mut i: usize = 0;
        while i < raw.len()
            invariant
                i <= raw@.len(),
                units(zero@) == 0,
                side@ == listed_levels(pairs(raw@).take(i as int)),
            decreases raw@.len() - i,
        {
            let (price, size) = raw[i];
            proof {
                let next = pairs(raw@).take(i + 1);
                assert(next.drop_last() =~= pairs(raw@).take(i as int));
                assert(next.last() == (price@, size@));
            }
            if !(price <= zero || size <= zero) {
                side.set_level(price, size);
            }
            i += 1;
        }
        proof {
            assert(pairs(raw@).take(raw@.len() as int) =~= pairs(raw@));
        }
        *self = side;
    }

    /// Applies a change of one level.
    pub fn apply_delta(&mut self, price: Decimal, size: Decimal)
        ensures
            final(self)@ == after_delta(old(self)@, price@, size@),
            units(size@) > 0 ==> final(self)@.contains_key(units(price@)) && final(self)@[units(
                price@,
            )].1 == size@,
            units(size@) <= 0 ==> !final(self)@.contains_key(units(price@)),
            forall|u: int|
                u != units(price@) ==> (#[trigger] final(self)@.contains_key(u) <==> old(
                    self,
                )@.contains_key(u)) && final(self)@[u] == old(self)@[u],
    {
        let zero = Decimal::zero();
        proof {
            lemma_units_whole(0);
            assert(whole(0) == 0);
        }
        if size <= zero {
            self.drop_level(price);
        } else {
            self.set_level(price, size);
        }
    }

    /// The best level: the highest price with `top` set, as for bids, the lowest
    /// otherwise, as for asks.
    fn best(&self, top: bool) -> (r: Option<(Decimal, Decimal)>)
        ensures
            match r {
                Some(l) => best_level(self@, top) == Some((l.0@, l.1@)) && self@.contains_key(
                    units(l.0@),
                ) && self@[units(l.0@)] == (l.0@, l.1@),
                None => best_level(self@, top) is None,
            },
            match r {
                Some(l) => forall|u: int| #[trigger]
                    self@.contains_key(u) ==> if top {
                        u <= units(l.0@)
                    } else {
                        u >= units(l.0@)
                    },
                None => forall|u: int| !#[trigger] self@.contains_key(u),
            },
    {
        proof {
            use_type_invariant(self);
        }
        let n: usize = self.levels.len();
        if n == 0 {
            assert(best_level(self@, top) is None) by {
                if exists|u: int| is_best(self@, top, u) {
                    let u = choose|u: int| is_best(self@, top, u);
                    assert(self@.contains_key(u));
                }
            }
            return None;
        }
        let i: usize = if top {
            n - 1
        } else {
            0
        };
        let level: (Decimal, Decimal) = self.levels[i];
        proof {
            let s = self.levels@;
            let u = units(s[i as int].0@);
            lemma_level(s, i as int);
            assert forall|v: int| #[trigger] self@.contains_key(v) implies if top {
                v <= u
            } else {
                v >= u
            } by {
                let j = choose|j: int| price_stands_at(s, v, j);
                if j < i {
                    assert(units(s[j].0@) < units(s[i as int].0@));
                }
                if i < j {
                    assert(units(s[i as int].0@) < units(s[j].0@));
                }
            }
            assert(is_best(self@, top, u));
            let c = choose|c: int| is_best(self@, top, c);
            assert(is_best(self@, top, c));
            assert(c == u);
        }
        Some(level)
    }

    /// The best price.
    pub fn best_price(&self, top: bool) -> (r: Option<Decimal>)
        ensures
            match r {
                Some(p) => best_level(self@, top) matches Some(l) && l.0 == p@,
                None => best_level(self@, top) is None,
            },
            match r {
                Some(p) => self@.contains_key(units(p@)) && forall|u: int| #[trigger]
                    self@.contains_key(u) ==> if top {
                        u <= units(p@)
                    } else {
                        u >= units(p@)
                    },
                None => forall|u: int| !#[trigger] self@.contains_key(u),
            },
    {
        match self.best(top) {
            Some((price, _)) => Some(price),
            None => None,
        }
    }

    /// The size at a price, zero where there is no such level.
    pub fn size_at(&self, price: &Decimal) -> (r: Decimal)
        ensures
            r@ == (if self@.contains_key(units(price@)) {
                self@[units(price@)].1
            } else {
                whole_num(0)
            }),
    {
        proof {
            use_type_invariant(self);
        }
        let i: usize = self.below(price);
        if i < self.levels.len() && self.levels[i].0 == *price {
            proof {
                lemma_level(self.levels@, i as int);
            }
            self.levels[i].1
        } else {
            proof {
                let s = self.levels@;
                if self@.contains_key(units(price@)) {
                    let j = choose|j: int| price_stands_at(s, units(price@), j);
                    assert(units(s[j].0@) == units(price@));
                    if j > i {
                        assert(units(s[i as int].0@) < units(s[j].0@));
                    }
                }
            }
            Decimal::zero()
        }
    }
}

proof fn lemma_levels(s: Seq<(Decimal, Decimal)>)
    requires
        ascending(s),
    ensures
        keyed_by_price(level_map(s)),
        forall|i: int|
            0 <= i < s.len() ==> level_map(s).contains_key(units(#[trigger] s[i].0@)) && level_map(
                s,
            )[units(s[i].0@)] == (s[i].0@, s[i].1@),
{
    assert forall|i: int| 0 <= i < s.len() implies level_map(s).contains_key(
        units(#[trigger] s[i].0@),
    ) && level_map(s)[units(s[i].0@)] == (s[i].0@, s[i].1@) by {
        lemma_level(s, i);
    }
    assert forall|u: int| #[trigger] level_map(s).contains_key(u) implies units(level_map(s)[u].0)
        == u by {
        let i = choose|i: int| price_stands_at(s, u, i);
        lemma_level(s, i);
    }
}

impl Clone for BookSide {
    fn clone(&self) -> (r: BookSide)
        ensures
            r@ == self@,
    {
        let mut levels: Vec<(Decimal, Decimal)> = Vec::new();
        let mut i: usize = 0;
        while i < self.levels.len()
            invariant
                i <= self.levels@.len(),
                levels@ == self.levels@.take(i as int),
            decreases self.levels@.len() - i,
        {
            levels.push(self.levels[i]);
            assert(self.levels@.take(i + 1) =~= self.levels@.take(i as int).push(
                self.levels@[i as int],
            ));
            i += 1;
        }
        proof {
            use_type_invariant(self);
            assert(levels@ =~= self.levels@);
        }
        BookSide { levels }
    }
}

/// The book of one asset.
#[derive(Debug)]
pub struct BookState {
    pub asset_id: String,
    pub market_id: String,
    pub bids: BookSide,
    pub asks: BookSide,
    pub last_update_ts_ms: i64,
}

/// What a [`BookState`] says.
#[verifier::ext_equal]
pub struct BookView {
    pub asset_id: Seq<char>,
    pub market_id: Seq<char>,
    pub bids: Levels,
    pub asks: Levels,
    pub last_update_ts_ms: i64,
}

impl View for BookState {
    type V = BookView;

    open spec fn view(&self) -> BookView {
        BookView {
            asset_id: self.asset_id@,
            market_id: self.market_id@,
            bids: self.bids@,
            asks: self.asks@,
            last_update_ts_ms: self.last_update_ts_ms,
        }
    }
}

impl Clone for BookState {
    fn clone(&self) -> (r: BookState)
        ensures
            r@ == self@,
    {
        BookState {
            asset_id: self.asset_id.clone(),
            market_id: self.market_id.clone(),
            bids: self.bids.clone(),
            asks: self.asks.clone(),
            last_update_ts_ms: self.last_update_ts_ms,
        }
    }
}

/// The book of an asset of which nothing is known yet.
pub open spec fn empty_book(asset_id: Seq<char>, market_id: Seq<char>) -> BookView {
    BookView {
        asset_id,
        market_id,
        bids: Map::empty(),
        asks: Map::empty(),
        last_update_ts_ms: 0,
    }
}

impl BookView {
    /// The lowest ask.
    pub open spec fn ask(self) -> Option<(Num, Num)> {
        best_level(self.asks, false)
    }

    /// The highest bid.
    pub open spec fn bid(self) -> Option<(Num, Num)> {
        best_level(self.bids, true)
    }
}

impl BookState {
    /// An empty book.
    pub fn new(asset_id: &str, market_id: &str) -> (r: BookState)
        ensures
            r@ == empty_book(asset_id@, market_id@),
    {
        BookState {
            asset_id: asset_id.to_string(),
            market_id: market_id.to_string(),
            bids: BookSide::new(),
            asks: BookSide::new(),
            last_update_ts_ms: 0,
        }
    }

    /// Price and size of the highest bid.
    pub fn best_bid(&self) -> (r: Option<(Decimal, Decimal)>)
        ensures
            match r {
                Some(l) => self@.bid() == Some((l.0@, l.1@)),
                None => self@.bid() is None,
            },
            match r {
                Some(l) => self.bids@.contains_key(units(l.0@)) && self.bids@[units(l.0@)] == (
                    l.0@,
                    l.1@,
                ) && forall|u: int| #[trigger] self.bids@.contains_key(u) ==> u <= units(l.0@),
                None => forall|u: int| !#[trigger] self.bids@.contains_key(u),
            },
    {
        self.bids.best(true)
    }

    /// Price and size of the lowest ask.
    pub fn best_ask(&self) -> (r: Option<(Decimal, Decimal)>)
        ensures
            match r {
                Some(l) => self@.ask() == Some((l.0@, l.1@)),
                None => self@.ask() is None,
            },
            match r {
                Some(l) => self.asks@.contains_key(units(l.0@)) && self.asks@[units(l.0@)] == (
                    l.0@,
                    l.1@,
                ) && forall|u: int| #[trigger] self.asks@.contains_key(u) ==> u >= units(l.0@),
                None => forall|u: int| !#[trigger] self.asks@.contains_key(u),
            },
    {
        self.asks.best(false)
    }
}

/// Law: after a change to a positive size, that is the size at the price, which stays as
/// it was first written; after any other, there is no level at it; no other price is
/// touched either way.
pub proof fn delta_sets_one_level(levels: Levels, price: Num, size: Num)
    ensures
        units(size) > 0 ==> after_delta(levels, price, size).contains_key(units(price))
            && after_delta(levels, price, size)[units(price)].1 == size,
        units(size) > 0 && levels.contains_key(units(price)) ==> after_delta(levels, price, size)[
            units(price)
        ].0 == levels[units(price)].0,
        units(size) > 0 && !levels.contains_key(units(price)) ==> after_delta(levels, price, size)[
            units(price)
        ].0 == price,
        units(size) <= 0 ==> !after_delta(levels, price, size).contains_key(units(price)),
        forall|u: int|
            u != units(price) ==> {
                &&& #[trigger] after_delta(levels, price, size).contains_key(u)
                    == levels.contains_key(u)
                &&& levels.contains_key(u) ==> after_delta(levels, price, size)[u] == levels[u]
            },
{
}

/// Law: every level of a snapshot has a positive price and a positive size.
pub proof fn listed_levels_are_positive(raw: Seq<(Num, Num)>)
    ensures
        keyed_by_price(listed_levels(raw)),
        forall|u: int| #[trigger]
            listed_levels(raw).contains_key(u) ==> u > 0 && units(listed_levels(raw)[u].1) > 0,
    decreases raw.len(),
{
    if raw.len() > 0 {
        listed_levels_are_positive(raw.drop_last());
    }
}

/// Law: changes keep every level under the value of its own price.
pub proof fn delta_keeps_keys(levels: Levels, price: Num, size: Num)
    requires
        keyed_by_price(levels),
    ensures
        keyed_by_price(after_delta(levels, price, size)),
{
}

/// Law: the lowest ask is a level of the asks, and no ask is lower; the highest bid is
/// a level of the bids, and no bid is higher. A side with a level at an end of its
/// prices has that level as its best.
pub proof fn best_levels_are_the_best(book: BookView, u: int)
    ensures
        book.ask() matches Some(l) ==> exists|v: int|
            {
                &&& #[trigger] book.asks.contains_key(v)
                &&& book.asks[v] == l
                &&& forall|w: int| #[trigger] book.asks.contains_key(w) ==> v <= w
            },
        book.bid() matches Some(l) ==> exists|v: int|
            {
                &&& #[trigger] book.bids.contains_key(v)
                &&& book.bids[v] == l
                &&& forall|w: int| #[trigger] book.bids.contains_key(w) ==> w <= v
            },
        book.asks.contains_key(u) && (forall|w: int| #[trigger]
            book.asks.contains_key(w) ==> u <= w) ==> book.ask() == Some(book.asks[u]),
        book.bids.contains_key(u) && (forall|w: int| #[trigger]
            book.bids.contains_key(w) ==> w <= u) ==> book.bid() == Some(book.bids[u]),
{
    if exists|v: int| is_best(book.asks, false, v) {
        let v = choose|v: int| is_best(book.asks, false, v);
        assert(book.asks.contains_key(v));
    }
    if exists|v: int| is_best(book.bids, true, v) {
        let v = choose|v: int| is_best(book.bids, true, v);
        assert(book.bids.contains_key(v));
    }
    if book.asks.contains_key(u) && (forall|w: int| #[trigger]
        book.asks.contains_key(w) ==> u <= w) {
        assert(is_best(book.asks, false, u));
        let v = choose|v: int| is_best(book.asks, false, v);
        assert(v == u);
    }
    if book.bids.contains_key(u) && (forall|w: int| #[trigger]
        book.bids.contains_key(w) ==> w <= u) {
        assert(is_best(book.bids, true, u));
        let v = choose|v: int| is_best(book.bids, true, v);
        assert(v == u);
    }
}

/// Law: a snapshot has a level at just the prices that it lists with a positive price
/// and a positive size, and the size there is the one that it lists last.
pub proof fn snapshot_has_the_listed_levels(raw: Seq<(Num, Num)>, i: int)
    ensures
        forall|u: int| #[trigger]
            listed_levels(raw).contains_key(u) ==> exists|j: int|
                0 <= j < raw.len() && units((#[trigger] raw[j]).0) == u && units(raw[j].0) > 0
                    && units(raw[j].1) > 0,
        0 <= i < raw.len() && units(raw[i].0) > 0 && units(raw[i].1) > 0
            ==> listed_levels(raw).contains_key(units(raw[i].0)),
        0 <= i < raw.len() && units(raw[i].0) > 0 && units(raw[i].1) > 0 && (forall|j: int|
            i < j < raw.len() && units((#[trigger] raw[j]).1) > 0 ==> units(raw[j].0) != units(
                raw[i].0,
            )) ==> listed_levels(raw)[units(raw[i].0)].1 == raw[i].1,
    decreases raw.len(),
{
    if raw.len() > 0 {
        let rest = raw.drop_last();
        snapshot_has_the_listed_levels(rest, i);
        let n = raw.len() - 1;
        assert forall|u: int| #[trigger] listed_levels(raw).contains_key(u) implies exists|j: int|
            0 <= j < raw.len() && units((#[trigger] raw[j]).0) == u && units(raw[j].0) > 0
                && units(raw[j].1) > 0 by {
            if listed_levels(rest).contains_key(u) {
                let j = choose|j: int|
                    0 <= j < rest.len() && units((#[trigger] rest[j]).0) == u && units(rest[j].0)
                        > 0 && units(rest[j].1) > 0;
                assert(raw[j] == rest[j]);
            } else {
                assert(units(raw[n].0) == u);
            }
        }
        if 0 <= i < rest.len() {
            assert(rest[i] == raw[i]);
            if forall|j: int|
                i < j < raw.len() && units((#[trigger] raw[j]).1) > 0 ==> units(raw[j].0) != units(
                    raw[i].0,
                ) {
                assert forall|j: int| i < j < rest.len() && units((#[trigger] rest[j]).1) > 0
                    implies units(rest[j].0) != units(rest[i].0) by {
                    assert(raw[j] == rest[j]);
                }
                assert(units(raw[n].1) > 0 ==> units(raw[n].0) != units(raw[i].0));
            }
        }
    }
}

/// Law: one more listed level sets its size at its price where both are above zero, and
/// else does nothing; a price stays as it was first written, and no other is touched.
pub proof fn one_more_listed_level_sets_its_size(
    raw: Seq<(Num, Num)>,
    price: Num,
    size: Num,
    other: int,
)
    ensures
        ({
            let before = listed_levels(raw);
            let after = listed_levels(raw.push((price, size)));
            let u = units(price);
            let counts = units(price) > 0 && units(size) > 0;
            &&& !counts ==> after == before
            &&& counts ==> after.contains_key(u) && after[u].1 == size
            &&& counts && before.contains_key(u) ==> after[u].0 == before[u].0
            &&& counts && !before.contains_key(u) ==> after[u].0 == price
            &&& other != u ==> after.contains_key(other) == before.contains_key(other)
                && after[other] == before[other]
        }),
        listed_levels(Seq::empty()) == Levels::empty(),
{
    assert(raw.push((price, size)).drop_last() =~= raw);
}

} // verus!
