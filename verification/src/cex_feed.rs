//! The feed of exchange prices.
//!
//! The exchange pushes `{"type":"ticker","product_id":"BTC-USD","price":"...",
//! "time":"..."}`. Of every product the last price is kept, and the latest
//! logarithmic returns with the time between their ticks.

use crate::double::Double;
use crate::poly_ws::{FeedAction, FeedActionView, FeedEvent};
use crate::string_map::StringMap;
use crate::text::{same_text, text_option, texts};
use crate::timestamp::{Timestamp, millis_between, rfc3339_instant, timestamp_option};
use std::collections::VecDeque;
use vstd::prelude::*;

verus! {

/// Where the exchange serves its feed.
pub const CEX_WS_URL: &'static str = "wss://ws-feed.exchange.coinbase.com";

/// How many ticks are kept.
pub const VOL_LOOKBACK_TICKS: usize = 60;

/// How many ticks a volatility takes.
pub const MIN_VOL_TICKS: usize = 10;

/// Ticks at least this many milliseconds apart say nothing.
pub const MAX_TICK_MILLIS: i64 = 300_000;

/// One quote of the exchange.
#[derive(Debug)]
pub struct CexPrice {
    pub product_id: String,
    pub price: Double,
    pub time: Timestamp,
}

/// A product: its last price and its latest returns.
#[derive(Debug)]
pub struct CexState {
    product_id: String,
    last_price: Option<Double>,
    last_time: Option<Timestamp>,
    ticks: VecDeque<(Double, i64)>,
}

/// What a [`CexState`] says.
#[verifier::ext_equal]
pub struct CexView {
    pub product_id: Seq<char>,
    pub last_price: Option<Double>,
    pub last_time: Option<int>,
    /// Returns with the milliseconds since the tick before, oldest first.
    pub ticks: Seq<(Double, i64)>,
}

/// The last `n` of a sequence.
pub open spec fn newest<A>(s: Seq<A>, n: int) -> Seq<A> {
    if s.len() > n {
        s.skip(s.len() - n)
    } else {
        s
    }
}

impl CexView {
    /// A product of which nothing was heard yet.
    pub open spec fn unheard(product_id: Seq<char>) -> CexView {
        CexView { product_id, last_price: None, last_time: None, ticks: Seq::empty() }
    }

    /// No more returns are kept than wanted, and the time that each took is more than
    /// nothing and less than the maximum.
    pub open spec fn well_kept(self) -> bool {
        &&& self.ticks.len() <= VOL_LOOKBACK_TICKS
        &&& forall|i: int|
            0 <= i < self.ticks.len() ==> 0 < (#[trigger] self.ticks[i]).1 < MAX_TICK_MILLIS
    }

    /// A tick at `time` makes a return: there was one before it, both prices are
    /// positive, and less than the maximum lies between them.
    pub open spec fn counts(self, price: Double, time: int) -> bool {
        match (self.last_price, self.last_time) {
            (Some(p), Some(t)) => {
                &&& Double::nought().below(p)
                &&& Double::nought().below(price)
                &&& 0 < millis_between(t, time) < MAX_TICK_MILLIS
            },
            _ => false,
        }
    }

    /// The product after a tick.
    pub open spec fn ticked(self, price: Double, time: int, log_return: Double) -> CexView {
        CexView {
            product_id: self.product_id,
            last_price: Some(price),
            last_time: Some(time),
            ticks: if self.counts(price, time) {
                newest(
                    self.ticks.push((log_return, millis_between(self.last_time->0, time) as i64)),
                    VOL_LOOKBACK_TICKS as int,
                )
            } else {
                self.ticks
            },
        }
    }
}

impl View for CexState {
    type V = CexView;

    closed spec fn view(&self) -> CexView {
        CexView {
            product_id: self.product_id@,
            last_price: self.last_price,
            last_time: timestamp_option(self.last_time),
            ticks: self.ticks@,
        }
    }
}

impl CexState {
    /// The returns kept are those that count.
    #[verifier::type_invariant]
    pub open spec fn well_formed(self) -> bool {
        self@.well_kept()
    }

    /// A product of which nothing was heard yet.
    pub fn new(product_id: &str) -> (r: CexState)
        ensures
            r@ == CexView::unheard(product_id@),
    {
        CexState {
            product_id: product_id.to_string(),
            last_price: None,
            last_time: None,
            ticks: VecDeque::new(),
        }
    }

    /// The product.
    pub fn product_id(&self) -> (r: &str)
        ensures
            r@ == self@.product_id,
    {
        self.product_id.as_str()
    }

    /// The last price.
    pub fn last_price(&self) -> (r: Option<Double>)
        ensures
            r == self@.last_price,
    {
        self.last_price
    }

    /// When the last price was quoted.
    pub fn last_time(&self) -> (r: Option<Timestamp>)
        ensures
            timestamp_option(r) == self@.last_time,
    {
        self.last_time
    }

    /// How many returns are kept.
    pub fn tick_count(&self) -> (r: usize)
        ensures
            r == self@.ticks.len(),
            r <= VOL_LOOKBACK_TICKS,
    {
        proof {
            use_type_invariant(self);
        }
        self.ticks.len()
    }

    /// A return with the milliseconds since the tick before, oldest first.
    pub fn tick(&self, i: usize) -> (r: (Double, i64))
        requires
            i < self@.ticks.len(),
        ensures
            r == self@.ticks[i as int],
            0 < r.1 < MAX_TICK_MILLIS,
    {
        proof {
            use_type_invariant(self);
        }
        self.ticks[i]
    }

    /// Whether there are enough returns for a volatility.
    pub fn has_volatility(&self) -> (r: bool)
        ensures
            r == (self@.ticks.len() >= MIN_VOL_TICKS),
            r <==> self@.ticks.len() >= 10,
    {
        self.ticks.len() >= MIN_VOL_TICKS
    }

    /// Takes a tick in. `log_return` is the logarithm of the price over the last
    /// one; it is used only where the tick makes a return.
    pub fn update(&mut self, price: Double, time: Timestamp, log_return: Double)
        ensures
            final(self)@ == old(self)@.ticked(price, time@, log_return),
            final(self)@.well_kept(),
    {
        proof {
            use_type_invariant(&*self);
        }
        if let (Some(last_price), Some(last_time)) = (self.last_price, self.last_time) {
            if last_price.is_positive() && price.is_positive() {
                let millis: i64 = time.millis_since(&last_time);
                if millis > 0 && millis < MAX_TICK_MILLIS {
                    let mut ticks: VecDeque<(Double, i64)> = VecDeque::new();
                    std::mem::swap(&mut ticks, &mut self.ticks);
                    ticks.push_back((log_return, millis));
                    if ticks.len() > VOL_LOOKBACK_TICKS {
                        let _ = ticks.pop_front();
                    }
                    assert(ticks@ =~= newest(
                        old(self)@.ticks.push((log_return, millis)),
                        VOL_LOOKBACK_TICKS as int,
                    ));
                    self.ticks = ticks;
                }
            }
        }
        self.last_price = Some(price);
        self.last_time = Some(time);
    }
}

/// A message of the feed.
#[derive(Debug)]
pub struct TickerMessage {
    pub type_: String,
    pub product_id: Option<String>,
    pub price: Option<String>,
    pub time: Option<String>,
}

/// Product, price as text and time of a message, where it is a ticker with all
/// three. `time` is the one that was read.
pub open spec fn ticker_at(msg: TickerMessage, time: Option<int>) -> Option<
    (Seq<char>, Seq<char>, int),
> {
    match (text_option(msg.product_id), text_option(msg.price), time) {
        (Some(product), Some(price), Some(t)) => if msg.type_@ == "ticker"@ {
            Some((product, price, t))
        } else {
            None
        },
        _ => None,
    }
}

/// Product, price as text and time of a message, where it is a complete ticker.
pub open spec fn ticker_of(msg: TickerMessage) -> Option<(Seq<char>, Seq<char>, int)> {
    ticker_at(
        msg,
        match text_option(msg.time) {
            Some(time) => rfc3339_instant(time),
            None => None,
        },
    )
}

/// The view of a ticker.
pub open spec fn ticker_view(t: Option<(String, String, Timestamp)>) -> Option<
    (Seq<char>, Seq<char>, int),
> {
    match t {
        Some(x) => Some((x.0@, x.1@, x.2@)),
        None => None,
    }
}

/// Product, price as text and time of a message, whose time was read.
pub fn ticker_with(msg: TickerMessage, time: Option<Timestamp>) -> (r: Option<
    (String, String, Timestamp),
>)
    ensures
        ticker_view(r) == ticker_at(msg, timestamp_option(time)),
{
    if !same_text(msg.type_.as_str(), "ticker") {
        return None;
    }
    match (msg.product_id, msg.price, time) {
        (Some(product), Some(price), Some(t)) => Some((product, price, t)),
        _ => None,
    }
}

/// Product, price as text and time of a message.
pub fn read_ticker(msg: TickerMessage) -> (r: Option<(String, String, Timestamp)>)
    ensures
        ticker_view(r) == ticker_of(msg),
{
    let time = match &msg.time {
        Some(t) => Timestamp::parse_rfc3339(t.as_str()),
        None => None,
    };
    ticker_with(msg, time)
}

/// What to do about an event of the feed: text is read, and all else either
/// leaves the connection or is passed over.
pub open spec fn on_cex_event_spec(event: FeedEvent) -> FeedActionView {
    match event {
        FeedEvent::Text(s) => FeedActionView::Read(s@),
        FeedEvent::Binary(_) => FeedActionView::Skip,
        FeedEvent::Control => FeedActionView::Skip,
        FeedEvent::Failed => FeedActionView::Fail,
        _ => FeedActionView::Leave,
    }
}

/// What to do about an event of the feed.
pub fn on_cex_event(event: FeedEvent) -> (r: FeedAction)
    ensures
        r@ == on_cex_event_spec(event),
{
    match event {
        FeedEvent::Text(s) => FeedAction::Read(s),
        FeedEvent::Binary(_) => FeedAction::Skip,
        FeedEvent::Control => FeedAction::Skip,
        FeedEvent::Failed => FeedAction::Fail,
        _ => FeedAction::Leave,
    }
}

/// The products of the feed.
#[derive(Debug)]
pub struct CexFeed {
    state: StringMap<CexState>,
    products: Vec<String>,
}

/// The views of the products of a map.
pub open spec fn cex_map(m: Map<Seq<char>, CexState>) -> Map<Seq<char>, CexView> {
    m.map_values(|s: CexState| s@)
}

/// The products `names`, of which nothing was heard yet.
pub open spec fn unheard_products(names: Seq<Seq<char>>) -> Map<Seq<char>, CexView> {
    Map::new(|n: Seq<char>| names.contains(n), |n: Seq<char>| CexView::unheard(n))
}

impl CexFeed {
    /// What was heard of each product.
    pub closed spec fn states(self) -> Map<Seq<char>, CexView> {
        cex_map(self.state@)
    }

    /// The products to subscribe to.
    pub closed spec fn names(self) -> Seq<Seq<char>> {
        texts(self.products@)
    }

    /// A feed of `products`.
    pub fn new(products: Vec<String>) -> (r: CexFeed)
        ensures
            r.names() == texts(products@),
            r.states() == unheard_products(texts(products@)),
    {
        let mut state: StringMap<CexState> = StringMap::new();
        let ghost all = texts(products@);
        proof {
            assert(cex_map(state@) =~= unheard_products(all.take(0)));
        }
        let mut i: usize = 0;
        while i < products.len()
            invariant
                i <= products@.len(),
                all == texts(products@),
                cex_map(state@) == unheard_products(all.take(i as int)),
            decreases products@.len() - i,
        {
            let ghost before = state@;
            state.insert(products[i].clone(), CexState::new(products[i].as_str()));
            proof {
                let name = products@[i as int]@;
                let next = all.take(i + 1);
                assert(next =~= all.take(i as int).push(name));
                assert forall|n: Seq<char>| next.contains(n) <==> (all.take(i as int).contains(n)
                    || n == name) by {
                    if next.contains(n) {
                        let k = choose|k: int| 0 <= k < next.len() && next[k] == n;
                        if k < i {
                            assert(all.take(i as int)[k] == n);
                        }
                    }
                    if all.take(i as int).contains(n) {
                        let k = choose|k: int|
                            0 <= k < all.take(i as int).len() && all.take(i as int)[k] == n;
                        assert(next[k] == n);
                    }
                    assert(next[i as int] == name);
                }
                assert(cex_map(state@) =~= cex_map(before).insert(name, CexView::unheard(name)));
                assert(cex_map(state@) =~= unheard_products(next));
            }
            i += 1;
        }
        proof {
            assert(all.take(products@.len() as int) =~= all);
        }
        CexFeed { state, products }
    }

    /// What was heard of each product.
    pub fn snapshot(&self) -> (r: &StringMap<CexState>)
        ensures
            cex_map(r@) == self.states(),
    {
        &self.state
    }

    /// The products to subscribe to.
    pub fn products(&self) -> (r: &Vec<String>)
        ensures
            texts(r@) == self.names(),
    {
        &self.products
    }

    /// Takes a tick of a product in; one of a product that is not followed is
    /// dropped.
    pub fn on_tick(&mut self, product_id: &str, price: Double, time: Timestamp, log_return: Double)
        ensures
            final(self).names() == old(self).names(),
            final(self).states() == (if old(self).states().contains_key(product_id@) {
                old(self).states().insert(
                    product_id@,
                    old(self).states()[product_id@].ticked(price, time@, log_return),
                )
            } else {
                old(self).states()
            }),
    {
        if let Some(state) = self.state.remove(product_id) {
            let mut state = state;
            state.update(price, time, log_return);
            self.state.insert(product_id.to_string(), state);
            assert(self.states() =~= old(self).states().insert(
                product_id@,
                old(self).states()[product_id@].ticked(price, time@, log_return),
            ));
        } else {
            assert(self.states() =~= old(self).states());
        }
    }
}

/// Law: from nothing heard on, whatever ticks come, no more returns are kept than
/// wanted, and the time that each took lies between nothing and the maximum.
pub proof fn returns_stay_well_kept(
    product_id: Seq<char>,
    state: CexView,
    price: Double,
    time: int,
    log_return: Double,
)
    ensures
        CexView::unheard(product_id).well_kept(),
        state.well_kept() ==> state.ticked(price, time, log_return).well_kept(),
{
}

/// Law: after a tick its price and its time are the last ones. It makes a return where it
/// comes after another one, by less than five minutes, and both prices are above zero; the
/// return is then the newest of sixty at most, and the others stay in their order.
pub proof fn ticks_become_the_newest_return(
    state: CexView,
    price: Double,
    time: int,
    log_return: Double,
)
    requires
        state.ticks.len() <= 60,
    ensures
        ({
            let after = state.ticked(price, time, log_return);
            let millis = millis_between(state.last_time->0, time);
            let makes_one = state.last_price is Some && state.last_time is Some
                && Double::nought().below(state.last_price->0) && Double::nought().below(price) && 0
                < millis && millis < 300_000;
            &&& after.product_id == state.product_id
            &&& after.last_price == Some(price)
            &&& after.last_time == Some(time)
            &&& !makes_one ==> after.ticks == state.ticks
            &&& makes_one ==> after.ticks.len() > 0 && after.ticks.last().0 == log_return
                && after.ticks.last().1 == millis
            &&& makes_one && state.ticks.len() < 60 ==> after.ticks.drop_last() == state.ticks
            &&& makes_one && state.ticks.len() == 60 ==> after.ticks.drop_last()
                == state.ticks.drop_first()
        }),
{
    let after = state.ticked(price, time, log_return);
    if state.counts(price, time) {
        let millis = millis_between(state.last_time->0, time);
        let all = state.ticks.push((log_return, millis as i64));
        if state.ticks.len() < 60 {
            assert(after.ticks.drop_last() =~= state.ticks);
        } else {
            assert(after.ticks.drop_last() =~= state.ticks.drop_first());
        }
    }
}

/// Law: a message is a ticker just where it says so and has a product, a price and a time
/// that can be read; these are what is taken from it.
pub proof fn tickers_are_complete_messages(msg: TickerMessage)
    ensures
        ({
            let time = rfc3339_instant(msg.time->0@);
            &&& ticker_of(msg) is Some <==> msg.type_@ == "ticker"@ && msg.product_id is Some
                && msg.price is Some && msg.time is Some && time is Some
            &&& ticker_of(msg) matches Some(t) ==> t.0 == msg.product_id->0@ && t.1
                == msg.price->0@ && Some(t.2) == time
        }),
{
}

/// Law: text is read as it came, binary and control frames are passed over, a failure is
/// reported, and every other event ends the connection.
pub proof fn exchange_events_lead_to_their_actions(event: FeedEvent)
    ensures
        event matches FeedEvent::Text(s) ==> on_cex_event_spec(event) == FeedActionView::Read(s@),
        event is Binary || event is Control <==> on_cex_event_spec(event) is Skip,
        event is Failed <==> on_cex_event_spec(event) is Fail,
        !(event is Text || event is Binary || event is Control || event is Failed)
            <==> on_cex_event_spec(event) is Leave,
{
}

/// Law: a new feed follows the products that it was given, and no other; nothing was heard
/// of any of them.
pub proof fn new_feeds_follow_their_products(names: Seq<Seq<char>>, i: int, other: Seq<char>)
    requires
        0 <= i < names.len(),
    ensures
        ({
            let states = unheard_products(names);
            &&& states.contains_key(names[i])
            &&& states[names[i]].product_id == names[i]
            &&& states[names[i]].last_price is None
            &&& states[names[i]].last_time is None
            &&& states[names[i]].ticks.len() == 0
            &&& states.contains_key(other) <==> names.contains(other)
        }),
{
    assert(names.contains(names[i]));
}

} // verus!
