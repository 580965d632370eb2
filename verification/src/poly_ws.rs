//! The feed of order books.
//!
//! Events:
//! - `book`: a snapshot, which replaces the levels of a book.
//! - `price_change`: changes of single levels; a size of zero takes one off.
//! - `best_bid_ask`: the best prices moved; no book changes, but it is looked at
//!   again.
//!
//! A connection is given up when it stays silent too long or the server answers
//! "INVALID OPERATION", and when the set of assets changes, which the server
//! only takes on a new connection.

use crate::book_state::{
    BookState, BookView, Levels, after_delta, empty_book, listed_levels, pairs,
};
use crate::decimal::{Decimal, Num, decimal_text, number_or_zero, units};
use crate::json::{Json, json_reading, read_json};
use crate::market_index::text_map;
use crate::string_map::StringMap;
use crate::text::{same_text, texts, to_uppercase, trim, trimmed, upper_case};
use crate::timestamp::{Timestamp, in_range, millis_of};
use vstd::prelude::*;
use vstd::utf8::{decode_utf8, valid_utf8};

verus! {

/// How often the server is pinged, in seconds.
pub const PING_INTERVAL_S: u64 = 9;

/// How long to wait for assets before looking again, in seconds.
pub const IDLE_WAIT_S: u64 = 5;

/// What the feed tells its reader.
#[derive(Debug)]
pub enum BookEvent {
    /// The book of this asset changed or is to be looked at again.
    Updated(String),
}

/// The asset of an event.
pub open spec fn event_asset(e: BookEvent) -> Seq<char> {
    match e {
        BookEvent::Updated(id) => id@,
    }
}

/// The assets of a list of events.
pub open spec fn event_assets(v: Seq<BookEvent>) -> Seq<Seq<char>> {
    v.map_values(|e: BookEvent| event_asset(e))
}

/// The books by asset.
pub type Books = Map<Seq<char>, BookView>;

/// The views of the books of a map.
pub open spec fn book_map(m: Map<Seq<char>, BookState>) -> Books {
    m.map_values(|b: BookState| b@)
}

/// Price and size of a listed level; one that cannot be read counts as zero.
pub open spec fn level_of(j: Json) -> Option<(Num, Num)> {
    match j.record(seq!["price"@, "size"@]) {
        Some(t) => Some((number_or_zero(t[0]), number_or_zero(t[1]))),
        None => None,
    }
}

/// The levels of a list; what is no level is left out.
pub open spec fn levels_of(raw: Seq<Json>) -> Seq<(Num, Num)>
    decreases raw.len(),
{
    if raw.len() == 0 {
        Seq::empty()
    } else {
        match level_of(raw.last()) {
            Some(l) => levels_of(raw.drop_last()).push(l),
            None => levels_of(raw.drop_last()),
        }
    }
}

/// A change of one level.
pub struct ChangeView {
    pub asset_id: Seq<char>,
    pub price: Num,
    pub size: Num,
    pub side: Seq<char>,
}

/// A change applies to the books: its own is known and its side is one.
pub open spec fn change_applies_to(books: Books, c: ChangeView) -> bool {
    books.contains_key(c.asset_id) && (c.side == "BUY"@ || c.side == "SELL"@)
}

/// The change that a value writes; one with a price or a size that cannot be read
/// is none.
pub open spec fn change_of(j: Json) -> Option<ChangeView> {
    match j.record(seq!["asset_id"@, "price"@, "size"@, "side"@]) {
        Some(t) => match (decimal_text(t[1]), decimal_text(t[2])) {
            (Some(price), Some(size)) => Some(
                ChangeView { asset_id: t[0], price, size, side: upper_case(t[3]) },
            ),
            _ => None,
        },
        None => None,
    }
}

/// A change applies: its book is known and its side is one.
pub open spec fn change_applies(books: Books, j: Json) -> bool {
    change_of(j) matches Some(c) && change_applies_to(books, c)
}

/// A book after a change, in either letter case: bids are bought, asks sold.
pub open spec fn changed_book(book: BookView, c: ChangeView, now_ms: i64) -> BookView {
    if c.side == "BUY"@ {
        BookView {
            bids: after_delta(book.bids, c.price, c.size),
            last_update_ts_ms: now_ms,
            ..book
        }
    } else {
        BookView {
            asks: after_delta(book.asks, c.price, c.size),
            last_update_ts_ms: now_ms,
            ..book
        }
    }
}

/// Between two states of the levels of a side, one change of `price` to `size` was
/// made: a positive size now stands there, any other leaves no level there, and no
/// other price was touched.
pub open spec fn one_level_set(before: Levels, after: Levels, price: Num, size: Num) -> bool {
    &&& units(size) > 0 ==> after.contains_key(units(price)) && after[units(price)].1 == size
    &&& units(size) <= 0 ==> !after.contains_key(units(price))
    &&& forall|u: int|
        u != units(price) ==> (#[trigger] after.contains_key(u) <==> before.contains_key(u))
            && after[u] == before[u]
}

/// The books after a list of changes.
pub open spec fn changed_books(books: Books, changes: Seq<Json>, now_ms: i64) -> Books
    decreases changes.len(),
{
    if changes.len() == 0 {
        books
    } else {
        let before = changed_books(books, changes.drop_last(), now_ms);
        if change_applies(before, changes.last()) {
            let c = change_of(changes.last())->0;
            before.insert(c.asset_id, changed_book(before[c.asset_id], c, now_ms))
        } else {
            before
        }
    }
}

/// The assets that a list of changes touches, each once, in order.
pub open spec fn touched_assets(books: Books, changes: Seq<Json>) -> Seq<Seq<char>>
    decreases changes.len(),
{
    if changes.len() == 0 {
        Seq::empty()
    } else {
        let before = touched_assets(books, changes.drop_last());
        if change_applies(books, changes.last()) && !before.contains(
            (change_of(changes.last())->0).asset_id,
        ) {
            before.push((change_of(changes.last())->0).asset_id)
        } else {
            before
        }
    }
}

/// A book after a snapshot; a side that the snapshot does not list stays.
pub open spec fn snapshot_book(book: BookView, msg: Json, now_ms: i64) -> BookView {
    BookView {
        bids: match msg.array_field("bids"@) {
            Some(raw) => listed_levels(levels_of(raw)),
            None => book.bids,
        },
        asks: match msg.array_field("asks"@) {
            Some(raw) => listed_levels(levels_of(raw)),
            None => book.asks,
        },
        last_update_ts_ms: now_ms,
        ..book
    }
}

/// The asset of a message, where its book is known.
pub open spec fn known_asset(books: Books, msg: Json) -> Option<Seq<char>> {
    match msg.text_field("asset_id"@) {
        Some(id) => if books.contains_key(id) {
            Some(id)
        } else {
            None
        },
        None => None,
    }
}

/// The books and the assets to tell of after a snapshot.
pub open spec fn after_snapshot(books: Books, msg: Json, now_ms: i64) -> (Books, Seq<Seq<char>>) {
    match known_asset(books, msg) {
        Some(id) => (books.insert(id, snapshot_book(books[id], msg, now_ms)), seq![id]),
        None => (books, Seq::empty()),
    }
}

/// The books and the assets to tell of after the best prices moved: no book
/// changes, but the asset is to be looked at again.
pub open spec fn after_best_bid_ask(books: Books, msg: Json) -> (Books, Seq<Seq<char>>) {
    match known_asset(books, msg) {
        Some(id) => (books, seq![id]),
        None => (books, Seq::empty()),
    }
}

/// The books and the assets to tell of after changes of single levels.
pub open spec fn after_price_change(books: Books, msg: Json, now_ms: i64) -> (
    Books,
    Seq<Seq<char>>,
) {
    match msg.array_field("price_changes"@) {
        Some(changes) => (
            changed_books(books, changes, now_ms),
            touched_assets(books, changes),
        ),
        None => (books, Seq::empty()),
    }
}

/// The books and the assets to tell of after a message.
pub open spec fn after_message(books: Books, msg: Json, now_ms: i64) -> (Books, Seq<Seq<char>>) {
    match msg.text_field("event_type"@) {
        Some(t) => if t == "book"@ {
            after_snapshot(books, msg, now_ms)
        } else if t == "price_change"@ {
            after_price_change(books, msg, now_ms)
        } else if t == "best_bid_ask"@ {
            after_best_bid_ask(books, msg)
        } else {
            (books, Seq::empty())
        },
        None => (books, Seq::empty()),
    }
}

/// The books and the assets to tell of after a list of messages, of which only
/// objects count.
pub open spec fn after_messages(books: Books, msgs: Seq<Json>, now_ms: i64) -> (
    Books,
    Seq<Seq<char>>,
)
    decreases msgs.len(),
{
    if msgs.len() == 0 {
        (books, Seq::empty())
    } else {
        let (before, told) = after_messages(books, msgs.drop_last(), now_ms);
        if msgs.last() is Object {
            let (now, more) = after_message(before, msgs.last(), now_ms);
            (now, told + more)
        } else {
            (before, told)
        }
    }
}

/// The books and the assets to tell of after what the server sent: a message or
/// a list of them.
pub open spec fn after_payload(books: Books, payload: Json, now_ms: i64) -> (
    Books,
    Seq<Seq<char>>,
) {
    match payload {
        Json::Array(items) => after_messages(books, items@, now_ms),
        Json::Object(_) => after_message(books, payload, now_ms),
        _ => (books, Seq::empty()),
    }
}

/// The books and the assets to tell of after a text that the server sent. One that
/// is not JSON changes nothing.
pub open spec fn after_text(books: Books, text: Seq<char>, now_ms: i64) -> (Books, Seq<Seq<char>>) {
    match json_reading(text) {
        Some(payload) => after_payload(books, payload, now_ms),
        None => (books, Seq::empty()),
    }
}

/// The levels of a list.
pub fn parse_levels(raw: &Vec<Json>) -> (r: Vec<(Decimal, Decimal)>)
    ensures
        pairs(r@) == levels_of(raw@),
{
    let mut fields: Vec<&'static str> = Vec::new();
    fields.push("price");
    fields.push("size");
    let mut out: Vec<(Decimal, Decimal)> = Vec::new();
    let mut i: usize = 0;
    proof {
        assert(raw@.take(0) =~= Seq::empty());
        assert(pairs(out@) =~= Seq::empty());
        assert(fields@.map_values(|f: &'static str| f@) =~= seq!["price"@, "size"@]);
    }
    while i < raw.len()
        invariant
            i <= raw@.len(),
            fields@.map_values(|f: &'static str| f@) == seq!["price"@, "size"@],
            pairs(out@) == levels_of(raw@.take(i as int)),
        decreases raw@.len() - i,
    {
        let ghost before = out@;
        proof {
            assert(raw@.take(i + 1).drop_last() =~= raw@.take(i as int));
            assert(raw@.take(i + 1).last() == raw@[i as int]);
        }
        if let Some(t) = raw[i].get_record(&fields) {
            proof {
                lemma_record_len(raw@[i as int], seq!["price"@, "size"@]);
            }
            let price = Decimal::parse_or_zero(t[0].as_str());
            let size = Decimal::parse_or_zero(t[1].as_str());
            out.push((price, size));
            assert(pairs(out@) =~= pairs(before).push((price@, size@)));
        }
        i += 1;
    }
    proof {
        assert(raw@.take(raw@.len() as int) =~= raw@);
    }
    out
}

proof fn lemma_record_len(j: Json, fields: Seq<Seq<char>>)
    ensures
        j.record(fields) matches Some(t) ==> t.len() == fields.len(),
{
}

/// Something that arrived on a connection, or did not.
#[derive(Debug)]
pub enum FeedEvent {
    /// The feed was told to stop.
    Stop,
    /// The set of assets changed.
    Resubscribe,
    /// Nothing arrived in time.
    Silence,
    /// The connection ended.
    Ended,
    /// The connection failed.
    Failed,
    Text(String),
    Binary(Vec<u8>),
    /// A ping, a pong or a raw frame.
    Control,
    /// The server closes the connection.
    Close,
}

/// What to do about it.
#[derive(Debug)]
pub enum FeedAction {
    /// Leave the connection in good order.
    Leave,
    /// Leave the connection as failed.
    Fail,
    /// Wait for more.
    Skip,
    /// Read this text as JSON.
    Read(String),
}

/// What a [`FeedAction`] says.
pub enum FeedActionView {
    Leave,
    Fail,
    Skip,
    Read(Seq<char>),
}

impl View for FeedAction {
    type V = FeedActionView;

    open spec fn view(&self) -> FeedActionView {
        match self {
            FeedAction::Leave => FeedActionView::Leave,
            FeedAction::Fail => FeedActionView::Fail,
            FeedAction::Skip => FeedActionView::Skip,
            FeedAction::Read(s) => FeedActionView::Read(s@),
        }
    }
}

/// What to do about a text without whitespace around it.
pub open spec fn on_text_spec(t: Seq<char>) -> FeedActionView {
    if t.len() == 0 || t == "PONG"@ {
        FeedActionView::Skip
    } else if t == "INVALID OPERATION"@ {
        FeedActionView::Leave
    } else {
        FeedActionView::Read(t)
    }
}

/// What to do about an event.
pub open spec fn on_event_spec(event: FeedEvent) -> FeedActionView {
    match event {
        FeedEvent::Stop => FeedActionView::Leave,
        FeedEvent::Resubscribe => FeedActionView::Leave,
        FeedEvent::Silence => FeedActionView::Leave,
        FeedEvent::Ended => FeedActionView::Leave,
        FeedEvent::Failed => FeedActionView::Fail,
        FeedEvent::Text(s) => on_text_spec(trimmed(s@)),
        FeedEvent::Binary(b) => if valid_utf8(b@) {
            on_text_spec(trimmed(decode_utf8(b@)))
        } else {
            FeedActionView::Skip
        },
        FeedEvent::Control => FeedActionView::Skip,
        FeedEvent::Close => FeedActionView::Leave,
    }
}

/// What to do about a text without whitespace around it.
pub fn on_text(t: &str) -> (r: FeedAction)
    ensures
        r@ == on_text_spec(t@),
{
    if t.is_empty() || same_text(t, "PONG") {
        FeedAction::Skip
    } else if same_text(t, "INVALID OPERATION") {
        FeedAction::Leave
    } else {
        FeedAction::Read(t.to_string())
    }
}

/// What to do about an event.
pub fn on_event(event: FeedEvent) -> (r: FeedAction)
    ensures
        r@ == on_event_spec(event),
{
    match event {
        FeedEvent::Stop => FeedAction::Leave,
        FeedEvent::Resubscribe => FeedAction::Leave,
        FeedEvent::Silence => FeedAction::Leave,
        FeedEvent::Ended => FeedAction::Leave,
        FeedEvent::Failed => FeedAction::Fail,
        FeedEvent::Text(s) => on_text(trim(s.as_str())),
        FeedEvent::Binary(b) => match text_from_utf8(b) {
            Some(s) => on_text(trim(s.as_str())),
            None => FeedAction::Skip,
        },
        FeedEvent::Control => FeedAction::Skip,
        FeedEvent::Close => FeedAction::Leave,
    }
}

/// What to do when a connection is wanted.
#[derive(Debug)]
pub enum ConnectPlan {
    /// There are no assets; look again after so many seconds, or when there are.
    WaitForAssets(u64),
    /// Connect and subscribe to these.
    Subscribe(Vec<String>),
}

/// The books of the assets that are followed.
#[derive(Debug)]
pub struct PolymarketMarketWS {
    url: String,
    assets: StringMap<String>,
    books: StringMap<BookState>,
}

/// Some asset in `additions` is not in `assets`.
pub open spec fn brings_news(
    assets: Map<Seq<char>, Seq<char>>,
    additions: Map<Seq<char>, Seq<char>>,
) -> bool {
    exists|id: Seq<char>| #[trigger] additions.contains_key(id) && !assets.contains_key(id)
}

/// The assets with those of `additions` that are new.
pub open spec fn assets_with(
    assets: Map<Seq<char>, Seq<char>>,
    additions: Map<Seq<char>, Seq<char>>,
) -> Map<Seq<char>, Seq<char>> {
    Map::new(
        |id: Seq<char>| assets.contains_key(id) || additions.contains_key(id),
        |id: Seq<char>|
            if assets.contains_key(id) {
                assets[id]
            } else {
                additions[id]
            },
    )
}

/// The books with an empty one for each asset of `additions` that is new.
pub open spec fn books_with(
    books: Books,
    assets: Map<Seq<char>, Seq<char>>,
    additions: Map<Seq<char>, Seq<char>>,
) -> Books {
    Map::new(
        |id: Seq<char>|
            books.contains_key(id) || (additions.contains_key(id) && !assets.contains_key(id)),
        |id: Seq<char>|
            if additions.contains_key(id) && !assets.contains_key(id) {
                empty_book(id, additions[id])
            } else {
                books[id]
            },
    )
}

impl PolymarketMarketWS {
    /// Where the feed is.
    pub closed spec fn address(self) -> Seq<char> {
        self.url@
    }

    /// The market of each asset.
    pub closed spec fn followed(self) -> Map<Seq<char>, Seq<char>> {
        text_map(self.assets@)
    }

    /// The books.
    pub closed spec fn current(self) -> Books {
        book_map(self.books@)
    }

    /// A feed of `initial_assets`, with empty books.
    pub fn new(url: &str, initial_assets: StringMap<String>) -> (r: PolymarketMarketWS)
        ensures
            r.address() == url@,
            r.followed() == text_map(initial_assets@),
            r.current() == books_with(Map::empty(), Map::empty(), text_map(initial_assets@)),
    {
        let mut feed = PolymarketMarketWS {
            url: url.to_string(),
            assets: StringMap::new(),
            books: StringMap::new(),
        };
        proof {
            assert(feed.followed() =~= Map::<Seq<char>, Seq<char>>::empty());
            assert(feed.current() =~= Books::empty());
        }
        let _ = feed.subscribe(&initial_assets);
        proof {
            assert(feed.followed() =~= text_map(initial_assets@));
        }
        feed
    }

    /// Where the feed is.
    pub fn url(&self) -> (r: &str)
        ensures
            r@ == self.address(),
    {
        self.url.as_str()
    }

    /// The books.
    pub fn books(&self) -> (r: &StringMap<BookState>)
        ensures
            book_map(r@) == self.current(),
    {
        &self.books
    }

    /// Follows the assets that are new, with empty books, and says whether there
    /// were any.
    pub fn subscribe(&mut self, additions: &StringMap<String>) -> (r: bool)
        ensures
            r == brings_news(old(self).followed(), text_map(additions@)),
            final(self).followed() == assets_with(old(self).followed(), text_map(additions@)),
            final(self).current() == books_with(
                old(self).current(),
                old(self).followed(),
                text_map(additions@),
            ),
            final(self).address() == old(self).address(),
    {
        let ghost assets0 = self.followed();
        let ghost books0 = self.current();
        let ghost news = text_map(additions@);
        let keys: Vec<String> = additions.keys();
        let ghost list = additions.key_list();
        let mut changed: bool = false;
        let mut i: usize = 0;
        proof {
            assert(text_map(additions@.restrict(Set::empty())) =~= Map::empty());
            assert(self.followed() =~= assets_with(assets0, restricted(news, list.take(0))));
            assert(self.current() =~= books_with(books0, assets0, restricted(news, list.take(0))));
        }
        while i < keys.len()
            invariant
                i <= keys@.len(),
                texts(keys@) == list,
                list.no_duplicates(),
                news == text_map(additions@),
                forall|k: Seq<char>| #[trigger] additions@.contains_key(k) <==> list.contains(k),
                self.followed() == assets_with(assets0, restricted(news, list.take(i as int))),
                self.current() == books_with(
                    books0,
                    assets0,
                    restricted(news, list.take(i as int)),
                ),
                changed == brings_news(assets0, restricted(news, list.take(i as int))),
                self.address() == old(self).address(),
            decreases keys@.len() - i,
        {
            let id = &keys[i];
            let ghost done = list.take(i as int);
            let ghost next = list.take(i + 1);
            let ghost k = list[i as int];
            proof {
                assert(k == keys@[i as int]@);
                assert(list.contains(k));
                assert(additions@.contains_key(k));
                assert(next =~= done.push(k));
                assert(!done.contains(k)) by {
                    if done.contains(k) {
                        let j = choose|j: int| 0 <= j < done.len() && done[j] == k;
                        assert(list[j] == list[i as int]);
                    }
                }
                lemma_restricted_push(news, done, k);
            }
            let market = match additions.get(id.as_str()) {
                Some(m) => m,
                None => {
                    assert(false);
                    return changed;
                },
            };
            let known: bool = self.assets.contains_key(id.as_str());
            proof {
                assert(known == assets0.contains_key(k)) by {
                    assert(self.followed().contains_key(k) == (assets0.contains_key(k)
                        || restricted(news, done).contains_key(k)));
                    assert(self.followed().contains_key(k) == self.assets@.contains_key(k));
                }
            }
            if !known {
                let ghost assets1 = self.followed();
                let ghost books1 = self.current();
                self.books.insert(id.clone(), BookState::new(id.as_str(), market.as_str()));
                self.assets.insert(id.clone(), market.clone());
                changed = true;
                proof {
                    assert(self.followed() =~= assets1.insert(k, news[k]));
                    assert(self.current() =~= books1.insert(k, empty_book(k, news[k])));
                    assert(restricted(news, next).contains_key(k));
                }
            }
            proof {
                assert(self.followed() =~= assets_with(assets0, restricted(news, next)));
                assert(self.current() =~= books_with(books0, assets0, restricted(news, next)));
                lemma_news_push(assets0, news, done, k);
            }
            i += 1;
        }
        proof {
            assert(list.take(keys@.len() as int) =~= list);
            assert(restricted(news, list) =~= news) by {
                assert forall|x: Seq<char>| news.contains_key(x) == list.contains(x) by {
                    assert(additions@.contains_key(x) == news.contains_key(x));
                }
            }
        }
        changed
    }

    /// What to do when a connection is wanted: subscribe to all assets, if any.
    pub fn connect_plan(&self) -> (r: ConnectPlan)
        ensures
            match r {
                ConnectPlan::WaitForAssets(s) => s == IDLE_WAIT_S && s == 5 && self.followed() == Map::<
                    Seq<char>,
                    Seq<char>,
                >::empty(),
                ConnectPlan::Subscribe(ids) => {
                    &&& ids@.len() > 0
                    &&& texts(ids@).no_duplicates()
                    &&& forall|id: Seq<char>| #[trigger]
                        self.followed().contains_key(id) <==> texts(ids@).contains(id)
                },
            },
    {
        if self.assets.is_empty() {
            assert(self.followed() =~= Map::<Seq<char>, Seq<char>>::empty());
            return ConnectPlan::WaitForAssets(IDLE_WAIT_S);
        }
        let ids = self.assets.keys();
        proof {
            assert(texts(ids@) == self.assets.key_list());
            assert forall|id: Seq<char>| #[trigger] self.followed().contains_key(id) <==> texts(
                ids@,
            ).contains(id) by {
                assert(self.assets@.contains_key(id) == self.followed().contains_key(id));
            }
        }
        ConnectPlan::Subscribe(ids)
    }

    /// Takes a snapshot in.
    pub fn on_book_snapshot(&mut self, msg: &Json, now: Timestamp) -> (r: Vec<BookEvent>)
        ensures
            (final(self).current(), event_assets(r@)) == after_snapshot(
                old(self).current(),
                *msg,
                millis_of(now@) as i64,
            ),
            final(self).followed() == old(self).followed(),
            final(self).address() == old(self).address(),
    {
        let mut events: Vec<BookEvent> = Vec::new();
        assert(event_assets(events@) =~= Seq::empty());
        let id = match msg.get_text("asset_id") {
            Some(s) => s,
            None => return events,
        };
        let ghost before = self.current();
        let mut book = match self.books.remove(id.as_str()) {
            Some(b) => b,
            None => {
                assert(self.current() =~= before);
                return events;
            },
        };
        let ghost was = book@;
        if let Some(raw) = msg.get_array("bids") {
            let levels = parse_levels(raw);
            book.bids.replace_levels(levels.as_slice());
        }
        if let Some(raw) = msg.get_array("asks") {
            let levels = parse_levels(raw);
            book.asks.replace_levels(levels.as_slice());
        }
        book.last_update_ts_ms = now.unix_millis();
        proof {
            assert(book@ == snapshot_book(was, *msg, millis_of(now@) as i64));
        }
        self.books.insert(id.clone(), book);
        assert(self.current() =~= before.insert(id@, book@));
        events.push(BookEvent::Updated(id.clone()));
        assert(event_assets(events@) =~= seq![id@]);
        events
    }

    /// Tells of a move of the best prices.
    pub fn on_best_bid_ask(&self, msg: &Json) -> (r: Vec<BookEvent>)
        ensures
            (self.current(), event_assets(r@)) == after_best_bid_ask(self.current(), *msg),
    {
        let mut events: Vec<BookEvent> = Vec::new();
        assert(event_assets(events@) =~= Seq::empty());
        let id = match msg.get_text("asset_id") {
            Some(s) => s,
            None => return events,
        };
        if self.books.contains_key(id.as_str()) {
            events.push(BookEvent::Updated(id.clone()));
            assert(event_assets(events@) =~= seq![id@]);
        }
        events
    }

    /// Takes one change in and says which asset it touched.
    fn on_change(&mut self, change: &Json, now: Timestamp) -> (r: Option<String>)
        ensures
            match r {
                Some(id) => change_applies(old(self).current(), *change) && (change_of(
                    *change,
                )->0).asset_id == id@ && final(self).current() == old(self).current().insert(
                    id@,
                    changed_book(
                        old(self).current()[id@],
                        change_of(*change)->0,
                        millis_of(now@) as i64,
                    ),
                ),
                None => !change_applies(old(self).current(), *change) && final(self).current()
                    == old(self).current(),
            },
            final(self).followed() == old(self).followed(),
            final(self).address() == old(self).address(),
    {
        let mut fields: Vec<&'static str> = Vec::new();
        fields.push("asset_id");
        fields.push("price");
        fields.push("size");
        fields.push("side");
        proof {
            assert(fields@.map_values(|f: &'static str| f@) =~= seq![
                "asset_id"@,
                "price"@,
                "size"@,
                "side"@,
            ]);
            lemma_record_len(*change, seq!["asset_id"@, "price"@, "size"@, "side"@]);
        }
        let t = match change.get_record(&fields) {
            Some(t) => t,
            None => return None,
        };
        let id = t[0].clone();
        let (price, size) = match (Decimal::parse(t[1].as_str()), Decimal::parse(t[2].as_str())) {
            (Some(p), Some(s)) => (p, s),
            _ => return None,
        };
        let side = to_uppercase(t[3].as_str());
        if self.apply_change(id.as_str(), price, size, side.as_str(), now) {
            Some(id)
        } else {
            None
        }
    }

    /// Takes in a change of one level, whose side is in capitals, and says
    /// whether it applied.
    pub fn apply_change(
        &mut self,
        asset_id: &str,
        price: Decimal,
        size: Decimal,
        side: &str,
        now: Timestamp,
    ) -> (r: bool)
        ensures
            ({
                let c = ChangeView { asset_id: asset_id@, price: price@, size: size@, side: side@ };
                &&& r == change_applies_to(old(self).current(), c)
                &&& final(self).current() == (if r {
                    old(self).current().insert(
                        asset_id@,
                        changed_book(
                            old(self).current()[asset_id@],
                            c,
                            millis_of(now@) as i64,
                        ),
                    )
                } else {
                    old(self).current()
                })
            }),
            r <==> old(self).current().contains_key(asset_id@) && (side@ == "BUY"@ || side@
                == "SELL"@),
            r ==> {
                let (was, now_is) = (
                    old(self).current()[asset_id@],
                    final(self).current()[asset_id@],
                );
                &&& final(self).current().contains_key(asset_id@)
                &&& side@ == "SELL"@ ==> now_is.bids == was.bids && one_level_set(
                    was.asks,
                    now_is.asks,
                    price@,
                    size@,
                )
                &&& side@ == "BUY"@ ==> now_is.asks == was.asks && one_level_set(
                    was.bids,
                    now_is.bids,
                    price@,
                    size@,
                )
            },
            final(self).followed() == old(self).followed(),
            final(self).address() == old(self).address(),
    {
        let ghost before = self.current();
        proof {
            reveal_strlit("BUY");
            reveal_strlit("SELL");
            assert("BUY"@.len() != "SELL"@.len());
        }
        let buy: bool = same_text(side, "BUY");
        let sell: bool = same_text(side, "SELL");
        if !buy && !sell {
            return false;
        }
        let mut book = match self.books.remove(asset_id) {
            Some(b) => b,
            None => {
                assert(self.current() =~= before);
                return false;
            },
        };
        if buy {
            book.bids.apply_delta(price, size);
        } else {
            book.asks.apply_delta(price, size);
        }
        book.last_update_ts_ms = now.unix_millis();
        self.books.insert(asset_id.to_string(), book);
        assert(self.current() =~= before.insert(asset_id@, book@));
        true
    }

    /// Takes changes of single levels in.
    pub fn on_price_change(&mut self, msg: &Json, now: Timestamp) -> (r: Vec<BookEvent>)
        ensures
            (final(self).current(), event_assets(r@)) == after_price_change(
                old(self).current(),
                *msg,
                millis_of(now@) as i64,
            ),
            final(self).followed() == old(self).followed(),
            final(self).address() == old(self).address(),
    {
        let mut events: Vec<BookEvent> = Vec::new();
        assert(event_assets(events@) =~= Seq::empty());
        let changes = match msg.get_array("price_changes") {
            Some(c) => c,
            None => return events,
        };
        let ghost books0 = self.current();
        let ghost now_ms = millis_of(now@) as i64;
        let mut i: usize = 0;
        proof {
            assert(changes@.take(0) =~= Seq::empty());
        }
        while i < changes.len()
            invariant
                i <= changes@.len(),
                now_ms == millis_of(now@) as i64,
                self.current() == changed_books(books0, changes@.take(i as int), now_ms),
                event_assets(events@) == touched_assets(books0, changes@.take(i as int)),
                self.followed() == old(self).followed(),
                self.address() == old(self).address(),
            decreases changes@.len() - i,
        {
            let ghost told = events@;
            proof {
                let next = changes@.take(i + 1);
                assert(next.drop_last() =~= changes@.take(i as int));
                assert(next.last() == changes@[i as int]);
                lemma_same_assets(books0, changes@.take(i as int), now_ms);
            }
            if let Some(id) = self.on_change(&changes[i], now) {
                let known: bool = was_told(&events, id.as_str());
                if !known {
                    events.push(BookEvent::Updated(id));
                    assert(event_assets(events@) =~= event_assets(told).push(id@));
                }
            }
            i += 1;
        }
        proof {
            assert(changes@.take(changes@.len() as int) =~= changes@);
        }
        events
    }

    /// Takes a message in.
    pub fn handle_message(&mut self, msg: &Json, now: Timestamp) -> (r: Vec<BookEvent>)
        ensures
            (final(self).current(), event_assets(r@)) == after_message(
                old(self).current(),
                *msg,
                millis_of(now@) as i64,
            ),
            final(self).followed() == old(self).followed(),
            final(self).address() == old(self).address(),
    {
        proof {
            reveal_strlit("book");
            reveal_strlit("price_change");
            reveal_strlit("best_bid_ask");
        }
        if let Some(t) = msg.get_text("event_type") {
            if same_text(t.as_str(), "book") {
                return self.on_book_snapshot(msg, now);
            }
            if same_text(t.as_str(), "price_change") {
                return self.on_price_change(msg, now);
            }
            if same_text(t.as_str(), "best_bid_ask") {
                return self.on_best_bid_ask(msg);
            }
        }
        let events: Vec<BookEvent> = Vec::new();
        assert(event_assets(events@) =~= Seq::empty());
        events
    }

    /// Takes in what the server sent at `now`: a message or a list of them.
    pub fn handle_payload_at(&mut self, payload: &Json, now: Timestamp) -> (r: Vec<BookEvent>)
        ensures
            (final(self).current(), event_assets(r@)) == after_payload(
                old(self).current(),
                *payload,
                millis_of(now@) as i64,
            ),
            final(self).followed() == old(self).followed(),
            final(self).address() == old(self).address(),
    {
        let mut events: Vec<BookEvent> = Vec::new();
        assert(event_assets(events@) =~= Seq::empty());
        if payload.is_object() {
            return self.handle_message(payload, now);
        }
        let items = match payload.as_array() {
            Some(v) => v,
            None => return events,
        };
        let ghost books0 = self.current();
        let ghost now_ms = millis_of(now@) as i64;
        let mut i: usize = 0;
        proof {
            assert(items@.take(0) =~= Seq::empty());
        }
        while i < items.len()
            invariant
                i <= items@.len(),
                now_ms == millis_of(now@) as i64,
                (self.current(), event_assets(events@)) == after_messages(
                    books0,
                    items@.take(i as int),
                    now_ms,
                ),
                self.followed() == old(self).followed(),
                self.address() == old(self).address(),
            decreases items@.len() - i,
        {
            proof {
                let next = items@.take(i + 1);
                assert(next.drop_last() =~= items@.take(i as int));
                assert(next.last() == items@[i as int]);
            }
            if items[i].is_object() {
                let ghost told = events@;
                let mut more = self.handle_message(&items[i], now);
                let ghost extra = more@;
                events.append(&mut more);
                assert(event_assets(events@) =~= event_assets(told) + event_assets(extra));
            }
            i += 1;
        }
        proof {
            assert(items@.take(items@.len() as int) =~= items@);
        }
        events
    }

    /// Takes in the text that the server sent at `now`.
    pub fn handle_text_at(&mut self, text: &str, now: Timestamp) -> (r: Vec<BookEvent>)
        ensures
            (final(self).current(), event_assets(r@)) == after_text(
                old(self).current(),
                text@,
                millis_of(now@) as i64,
            ),
            final(self).followed() == old(self).followed(),
            final(self).address() == old(self).address(),
    {
        match read_json(text) {
            Some(payload) => self.handle_payload_at(&payload, now),
            None => {
                let events: Vec<BookEvent> = Vec::new();
                assert(event_assets(events@) =~= Seq::empty());
                events
            },
        }
    }

    /// Takes in a text that the server sent.
    pub fn handle_text(&mut self, text: &str) -> (r: Vec<BookEvent>)
        ensures
            exists|now: int|
                in_range(now) && (final(self).current(), event_assets(r@)) == #[trigger] after_text(
                    old(self).current(),
                    text@,
                    millis_of(now) as i64,
                ),
            final(self).followed() == old(self).followed(),
            final(self).address() == old(self).address(),
    {
        let now = Timestamp::now();
        self.handle_text_at(text, now)
    }
}

/// A map with only the keys in a list.
pub open spec fn restricted(
    m: Map<Seq<char>, Seq<char>>,
    keys: Seq<Seq<char>>,
) -> Map<Seq<char>, Seq<char>> {
    Map::new(|k: Seq<char>| m.contains_key(k) && keys.contains(k), |k: Seq<char>| m[k])
}

proof fn lemma_restricted_push(
    m: Map<Seq<char>, Seq<char>>,
    keys: Seq<Seq<char>>,
    k: Seq<char>,
)
    requires
        m.contains_key(k),
    ensures
        restricted(m, keys.push(k)) == restricted(m, keys).insert(k, m[k]),
{
    let next = keys.push(k);
    assert forall|x: Seq<char>| next.contains(x) == (keys.contains(x) || x == k) by {
        if keys.contains(x) {
            let j = choose|j: int| 0 <= j < keys.len() && keys[j] == x;
            assert(next[j] == x);
        }
        if x == k {
            assert(next[keys.len() as int] == x);
        }
        if next.contains(x) {
            let j = choose|j: int| 0 <= j < next.len() && next[j] == x;
            if j < keys.len() {
                assert(keys[j] == x);
            }
        }
    }
    assert(restricted(m, next) =~= restricted(m, keys).insert(k, m[k]));
}

proof fn lemma_news_push(
    assets: Map<Seq<char>, Seq<char>>,
    m: Map<Seq<char>, Seq<char>>,
    keys: Seq<Seq<char>>,
    k: Seq<char>,
)
    requires
        m.contains_key(k),
    ensures
        brings_news(assets, restricted(m, keys.push(k))) == (brings_news(
            assets,
            restricted(m, keys),
        ) || !assets.contains_key(k)),
{
    lemma_restricted_push(m, keys, k);
    let before = restricted(m, keys);
    let after = before.insert(k, m[k]);
    if brings_news(assets, before) {
        let x = choose|x: Seq<char>| #[trigger] before.contains_key(x) && !assets.contains_key(x);
        assert(after.contains_key(x));
    }
    if !assets.contains_key(k) {
        assert(after.contains_key(k));
    }
    if brings_news(assets, after) {
        let x = choose|x: Seq<char>| #[trigger] after.contains_key(x) && !assets.contains_key(x);
        if x != k {
            assert(before.contains_key(x));
        }
    }
}

proof fn lemma_same_assets(books: Books, changes: Seq<Json>, now_ms: i64)
    ensures
        forall|id: Seq<char>| #[trigger]
            changed_books(books, changes, now_ms).contains_key(id) == books.contains_key(id),
    decreases changes.len(),
{
    if changes.len() > 0 {
        let before = changed_books(books, changes.drop_last(), now_ms);
        let after = changed_books(books, changes, now_ms);
        lemma_same_assets(books, changes.drop_last(), now_ms);
        assert forall|id: Seq<char>| #[trigger] after.contains_key(id) == books.contains_key(
            id,
        ) by {
            assert(before.contains_key(id) == books.contains_key(id));
            if change_applies(before, changes.last()) {
                assert(before.contains_key((change_of(changes.last())->0).asset_id));
            }
        }
    }
}

/// Whether one of the events is about `id`.
fn was_told(events: &Vec<BookEvent>, id: &str) -> (r: bool)
    ensures
        r == event_assets(events@).contains(id@),
{
    let mut i: usize = 0;
    while i < events.len()
        invariant
            i <= events@.len(),
            forall|j: int| 0 <= j < i ==> event_asset(#[trigger] events@[j]) != id@,
        decreases events@.len() - i,
    {
        let BookEvent::Updated(other) = &events[i];
        if same_text(other.as_str(), id) {
            assert(event_assets(events@)[i as int] == id@);
            return true;
        }
        i += 1;
    }
    assert(!event_assets(events@).contains(id@)) by {
        if event_assets(events@).contains(id@) {
            let j = choose|j: int|
                0 <= j < event_assets(events@).len() && event_assets(events@)[j] == id@;
            assert(event_asset(events@[j]) == id@);
        }
    }
    false
}

/// Law: no message adds a book or takes one away.
pub proof fn messages_keep_the_set_of_books(books: Books, msg: Json, now_ms: i64)
    ensures
        forall|id: Seq<char>| #[trigger]
            after_message(books, msg, now_ms).0.contains_key(id) == books.contains_key(id),
{
    if let Some(changes) = msg.array_field("price_changes"@) {
        lemma_same_assets(books, changes, now_ms);
    }
}

/// Law: an asset is told of at most once per list of changes, and only if its
/// book is known.
pub proof fn touched_assets_are_known_and_distinct(books: Books, changes: Seq<Json>)
    ensures
        touched_assets(books, changes).no_duplicates(),
        forall|i: int|
            0 <= i < touched_assets(books, changes).len() ==> books.contains_key(
                #[trigger] touched_assets(books, changes)[i],
            ),
    decreases changes.len(),
{
    if changes.len() > 0 {
        touched_assets_are_known_and_distinct(books, changes.drop_last());
    }
}

/// Law: once assets are followed, following them again brings no news and
/// changes nothing.
pub proof fn subscribing_twice_changes_nothing(
    books: Books,
    assets: Map<Seq<char>, Seq<char>>,
    additions: Map<Seq<char>, Seq<char>>,
)
    ensures
        !brings_news(assets_with(assets, additions), additions),
        assets_with(assets_with(assets, additions), additions) == assets_with(assets, additions),
        books_with(
            books_with(books, assets, additions),
            assets_with(assets, additions),
            additions,
        ) == books_with(books, assets, additions),
{
    assert(assets_with(assets_with(assets, additions), additions) =~= assets_with(
        assets,
        additions,
    ));
    assert(books_with(
        books_with(books, assets, additions),
        assets_with(assets, additions),
        additions,
    ) =~= books_with(books, assets, additions));
}

/// Law: a change is read off its four texts. Of an asset that is not followed, with a
/// side that is neither, or with an amount that cannot be read, it changes nothing.
/// Otherwise it sets one level on one side of one book: the asks where it sells, the
/// bids where it buys. A positive size then stands at the price, whether or not there
/// was a level before; any other size leaves no level there. No other price, side or
/// book is touched.
pub proof fn one_more_change_sets_one_level(
    books: Books,
    changes: Seq<Json>,
    change: Json,
    now_ms: i64,
)
    ensures
        ({
            let before = changed_books(books, changes, now_ms);
            let after = changed_books(books, changes.push(change), now_ms);
            let t = change.record(seq!["asset_id"@, "price"@, "size"@, "side"@])->0;
            let (id, side) = (t[0], upper_case(t[3]));
            let (price, size) = (decimal_text(t[1])->0, decimal_text(t[2])->0);
            if change.record(seq!["asset_id"@, "price"@, "size"@, "side"@]) is Some
                && before.contains_key(id) && decimal_text(t[1]) is Some && decimal_text(t[2])
                is Some && (side == "BUY"@ || side == "SELL"@) {
                let (was, now_is) = (before[id], after[id]);
                &&& after.dom() == before.dom()
                &&& forall|other: Seq<char>|
                    other != id ==> #[trigger] after[other] == before[other]
                &&& now_is.asset_id == was.asset_id
                &&& now_is.market_id == was.market_id
                &&& now_is.last_update_ts_ms == now_ms
                &&& side == "SELL"@ ==> {
                    &&& now_is.bids == was.bids
                    &&& units(size) > 0 ==> now_is.asks.contains_key(units(price))
                        && now_is.asks[units(price)].1 == size
                    &&& units(size) <= 0 ==> !now_is.asks.contains_key(units(price))
                    &&& forall|u: int|
                        u != units(price) ==> (#[trigger] now_is.asks.contains_key(u)
                            <==> was.asks.contains_key(u)) && now_is.asks[u] == was.asks[u]
                }
                &&& side == "BUY"@ ==> {
                    &&& now_is.asks == was.asks
                    &&& units(size) > 0 ==> now_is.bids.contains_key(units(price))
                        && now_is.bids[units(price)].1 == size
                    &&& units(size) <= 0 ==> !now_is.bids.contains_key(units(price))
                    &&& forall|u: int|
                        u != units(price) ==> (#[trigger] now_is.bids.contains_key(u)
                            <==> was.bids.contains_key(u)) && now_is.bids[u] == was.bids[u]
                }
            } else {
                after == before
            }
        }),
        changed_books(books, Seq::empty(), now_ms) == books,
{
    reveal_strlit("BUY");
    reveal_strlit("SELL");
    assert("BUY"@.len() != "SELL"@.len());
    assert(changes.push(change).drop_last() =~= changes);
    let before = changed_books(books, changes, now_ms);
    let after = changed_books(books, changes.push(change), now_ms);
    if change_applies(before, change) {
        let c = change_of(change)->0;
        assert(after == before.insert(c.asset_id, changed_book(before[c.asset_id], c, now_ms)));
        assert(after.dom() =~= before.dom());
    }
}

/// Law: a list of changes tells of an asset just where one of its changes applied to
/// it.
pub proof fn one_more_change_tells_of_its_asset(books: Books, changes: Seq<Json>, change: Json)
    ensures
        ({
            let told = touched_assets(books, changes);
            let now_told = touched_assets(books, changes.push(change));
            let t = change.record(seq!["asset_id"@, "price"@, "size"@, "side"@])->0;
            if change.record(seq!["asset_id"@, "price"@, "size"@, "side"@]) is Some
                && books.contains_key(t[0]) && decimal_text(t[1]) is Some && decimal_text(t[2])
                is Some && (upper_case(t[3]) == "BUY"@ || upper_case(t[3]) == "SELL"@)
                && !told.contains(t[0]) {
                now_told == told.push(t[0])
            } else {
                now_told == told
            }
        }),
        touched_assets(books, Seq::empty()) == Seq::<Seq<char>>::empty(),
{
    assert(changes.push(change).drop_last() =~= changes);
}

/// Law: a `book` message replaces each side that it lists by what it lists, and leaves
/// the other side and every other book as they are; its asset is told of. One of an
/// asset that is not followed does nothing.
pub proof fn snapshot_replaces_what_it_lists(books: Books, msg: Json, now_ms: i64)
    requires
        msg.text_field("event_type"@) == Some("book"@),
    ensures
        ({
            let (after, told) = after_message(books, msg, now_ms);
            match msg.text_field("asset_id"@) {
                Some(id) => if books.contains_key(id) {
                    &&& told == seq![id]
                    &&& after.dom() == books.dom()
                    &&& forall|other: Seq<char>|
                        other != id ==> #[trigger] after[other] == books[other]
                    &&& after[id].asset_id == books[id].asset_id
                    &&& after[id].market_id == books[id].market_id
                    &&& after[id].last_update_ts_ms == now_ms
                    &&& match msg.array_field("bids"@) {
                        Some(raw) => after[id].bids == listed_levels(levels_of(raw)),
                        None => after[id].bids == books[id].bids,
                    }
                    &&& match msg.array_field("asks"@) {
                        Some(raw) => after[id].asks == listed_levels(levels_of(raw)),
                        None => after[id].asks == books[id].asks,
                    }
                } else {
                    after == books && told.len() == 0
                },
                None => after == books && told.len() == 0,
            }
        }),
{
    if let Some(id) = msg.text_field("asset_id"@) {
        if books.contains_key(id) {
            assert(after_message(books, msg, now_ms).0.dom() =~= books.dom());
        }
    }
}

/// Law: a listed level is read off its price and its size, an amount that cannot be
/// read counting as zero; what is no level is left out, and the order stays.
pub proof fn one_more_listed_level(raw: Seq<Json>, level: Json)
    ensures
        levels_of(Seq::empty()) == Seq::<(Num, Num)>::empty(),
        levels_of(raw.push(level)) == (match level.record(seq!["price"@, "size"@]) {
            Some(t) => levels_of(raw).push(
                (
                    match decimal_text(t[0]) {
                        Some(n) => n,
                        None => Num { mant: 0, scale: 0 },
                    },
                    match decimal_text(t[1]) {
                        Some(n) => n,
                        None => Num { mant: 0, scale: 0 },
                    },
                ),
            ),
            None => levels_of(raw),
        }),
{
    assert(raw.push(level).drop_last() =~= raw);
}

/// Law: a `price_change` message makes its changes in order and tells of the assets
/// that they touched; a `best_bid_ask` message changes no book and tells of its asset
/// where that is followed; any other message, but for a `book`, does nothing.
pub proof fn messages_do_what_their_type_says(books: Books, msg: Json, now_ms: i64)
    ensures
        ({
            let (after, told) = after_message(books, msg, now_ms);
            match msg.text_field("event_type"@) {
                None => after == books && told.len() == 0,
                Some(t) => {
                    &&& t == "price_change"@ ==> match msg.array_field("price_changes"@) {
                        Some(changes) => after == changed_books(books, changes, now_ms) && told
                            == touched_assets(books, changes),
                        None => after == books && told.len() == 0,
                    }
                    &&& t == "best_bid_ask"@ ==> {
                        &&& after == books
                        &&& match msg.text_field("asset_id"@) {
                            Some(id) => told == (if books.contains_key(id) {
                                seq![id]
                            } else {
                                Seq::empty()
                            }),
                            None => told.len() == 0,
                        }
                    }
                    &&& t != "book"@ && t != "price_change"@ && t != "best_bid_ask"@ ==> after
                        == books && told.len() == 0
                },
            }
        }),
{
    reveal_strlit("book");
    reveal_strlit("price_change");
    reveal_strlit("best_bid_ask");
    assert("book"@.len() != "price_change"@.len());
    assert("book"@.len() != "best_bid_ask"@.len());
    assert("price_change"@[0] != "best_bid_ask"@[0]);
}

/// Law: what the server sends is a message or a list of messages, taken one after the
/// other; what is no object is passed over, and so is a text that is not JSON.
pub proof fn payloads_are_taken_in_order(
    books: Books,
    text: Seq<char>,
    payload: Json,
    msgs: Seq<Json>,
    next: Json,
    now_ms: i64,
)
    ensures
        json_reading(text) is None ==> after_text(books, text, now_ms) == (
            books,
            Seq::<Seq<char>>::empty(),
        ),
        json_reading(text) == Some(payload) ==> after_text(books, text, now_ms) == after_payload(
            books,
            payload,
            now_ms,
        ),
        payload is Object ==> after_payload(books, payload, now_ms) == after_message(
            books,
            payload,
            now_ms,
        ),
        payload matches Json::Array(items) ==> after_payload(books, payload, now_ms)
            == after_messages(books, items@, now_ms),
        payload !is Object && payload !is Array ==> after_payload(books, payload, now_ms) == (
            books,
            Seq::<Seq<char>>::empty(),
        ),
        after_messages(books, Seq::empty(), now_ms) == (books, Seq::<Seq<char>>::empty()),
        ({
            let (before, told) = after_messages(books, msgs, now_ms);
            let (after, now_told) = after_messages(books, msgs.push(next), now_ms);
            if next is Object {
                &&& after == after_message(before, next, now_ms).0
                &&& now_told == told + after_message(before, next, now_ms).1
            } else {
                after == before && now_told == told
            }
        }),
{
    assert(msgs.push(next).drop_last() =~= msgs);
}

/// Law: an asset that was not followed before is followed for its market with an empty
/// book; one that was keeps its market and its book. There is news just where there is
/// such a new asset.
pub proof fn new_assets_start_with_empty_books(
    books: Books,
    assets: Map<Seq<char>, Seq<char>>,
    additions: Map<Seq<char>, Seq<char>>,
    id: Seq<char>,
)
    ensures
        additions.contains_key(id) && !assets.contains_key(id) ==> {
            &&& brings_news(assets, additions)
            &&& assets_with(assets, additions).contains_key(id)
            &&& assets_with(assets, additions)[id] == additions[id]
            &&& books_with(books, assets, additions).contains_key(id)
            &&& books_with(books, assets, additions)[id].asset_id == id
            &&& books_with(books, assets, additions)[id].market_id == additions[id]
            &&& books_with(books, assets, additions)[id].bids == Levels::empty()
            &&& books_with(books, assets, additions)[id].asks == Levels::empty()
            &&& books_with(books, assets, additions)[id].last_update_ts_ms == 0
        },
        assets.contains_key(id) || !additions.contains_key(id) ==> {
            &&& assets_with(assets, additions).contains_key(id) == assets.contains_key(id)
            &&& assets.contains_key(id) ==> assets_with(assets, additions)[id] == assets[id]
            &&& books_with(books, assets, additions).contains_key(id) == books.contains_key(id)
            &&& books.contains_key(id) ==> books_with(books, assets, additions)[id] == books[id]
        },
        brings_news(assets, additions) ==> exists|x: Seq<char>| #[trigger]
            additions.contains_key(x) && !assets.contains_key(x),
{
}

/// Law: a text without the space around it is read as JSON, but for an empty one and
/// the answer to a ping, which are passed over, and the server's refusal, on which the
/// connection is left. A failure fails the connection, silence and the end of it leave
/// it in good order, and control frames are passed over.
pub proof fn events_lead_to_their_actions(event: FeedEvent)
    ensures
        event matches FeedEvent::Text(s) ==> {
            let t = trimmed(s@);
            &&& t.len() == 0 || t == "PONG"@ ==> on_event_spec(event) == FeedActionView::Skip
            &&& t == "INVALID OPERATION"@ ==> on_event_spec(event) == FeedActionView::Leave
            &&& t.len() > 0 && t != "PONG"@ && t != "INVALID OPERATION"@ ==> on_event_spec(event)
                == FeedActionView::Read(t)
        },
        event matches FeedEvent::Binary(b) ==> {
            let t = trimmed(decode_utf8(b@));
            &&& !valid_utf8(b@) ==> on_event_spec(event) == FeedActionView::Skip
            &&& valid_utf8(b@) && (t.len() == 0 || t == "PONG"@) ==> on_event_spec(event)
                == FeedActionView::Skip
            &&& valid_utf8(b@) && t == "INVALID OPERATION"@ ==> on_event_spec(event)
                == FeedActionView::Leave
            &&& valid_utf8(b@) && t.len() > 0 && t != "PONG"@ && t != "INVALID OPERATION"@
                ==> on_event_spec(event) == FeedActionView::Read(t)
        },
        event is Failed ==> on_event_spec(event) == FeedActionView::Fail,
        event is Control ==> on_event_spec(event) == FeedActionView::Skip,
        event is Stop || event is Resubscribe || event is Silence || event is Ended
            || event is Close ==> on_event_spec(event) == FeedActionView::Leave,
{
    reveal_strlit("PONG");
    reveal_strlit("INVALID OPERATION");
    assert("PONG"@.len() != "INVALID OPERATION"@.len());
}

/// Calls `String::from_utf8`: there is a text where the bytes are valid UTF-8,
/// and it is what they encode.
#[verifier::external_body]
fn text_from_utf8(bytes: Vec<u8>) -> (r: Option<String>)
    ensures
        r is Some <==> valid_utf8(bytes@),
        r matches Some(s) ==> s@ == decode_utf8(bytes@),
{
    String::from_utf8(bytes).ok()
}

} // verus!
