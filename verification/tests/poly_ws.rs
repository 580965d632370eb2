//! The feed of books.

use bot_polymarket_rust::decimal::Decimal;
use bot_polymarket_rust::json::Json;
use bot_polymarket_rust::poly_ws::{
    on_event, on_text, parse_levels, BookEvent, ConnectPlan, FeedAction, FeedEvent,
    PolymarketMarketWS,
};
use bot_polymarket_rust::string_map::StringMap;
use bot_polymarket_rust::timestamp::Timestamp;

fn dec(text: &str) -> Decimal {
    Decimal::parse_exact(text).unwrap()
}

fn text(s: &str) -> Json {
    Json::Text(s.to_string())
}

fn object(entries: Vec<(&str, Json)>) -> Json {
    Json::Object(entries.into_iter().map(|(k, v)| (k.to_string(), v)).collect())
}

fn level(price: &str, size: &str) -> Json {
    object(vec![("price", text(price)), ("size", text(size))])
}

fn change(asset: &str, price: &str, size: &str, side: &str) -> Json {
    object(vec![
        ("asset_id", text(asset)),
        ("price", text(price)),
        ("size", text(size)),
        ("side", text(side)),
    ])
}

fn feed() -> PolymarketMarketWS {
    let mut assets = StringMap::new();
    assets.insert("A".to_string(), "M".to_string());
    assets.insert("B".to_string(), "M".to_string());
    PolymarketMarketWS::new("wss://feed", assets)
}

fn told(events: Vec<BookEvent>) -> Vec<String> {
    events
        .into_iter()
        .map(|e| {
            let BookEvent::Updated(id) = e;
            id
        })
        .collect()
}

fn at(seconds: i64) -> Timestamp {
    Timestamp::from_unix(seconds, 0).unwrap()
}

#[test]
fn parse_levels_works() {
    let v = vec![level("0.4", "100"), level("0.5", "50")];
    let levels = parse_levels(&v);
    assert_eq!(levels.len(), 2);
    assert_eq!(levels[0].0, dec("0.4"));
    assert_eq!(levels[0].1, dec("100"));
}

#[test]
fn levels_that_cannot_be_read_count_as_zero_or_not_at_all() {
    let v = vec![
        level("abc", "100"),
        level("0.5", ""),
        text("0.4"),
        object(vec![("price", text("0.4"))]),
        object(vec![("price", Json::Number("0.4".to_string())), ("size", text("1"))]),
        Json::Array(vec![text("0.6"), text("7")]),
        Json::Array(vec![text("0.6"), text("7"), text("8")]),
        Json::Null,
    ];
    let levels = parse_levels(&v);
    assert_eq!(
        levels,
        vec![
            (Decimal::zero(), dec("100")),
            (dec("0.5"), Decimal::zero()),
            (dec("0.6"), dec("7"))
        ]
    );
}

#[test]
fn a_new_feed_has_empty_books() {
    let f = feed();
    assert_eq!(f.url(), "wss://feed");
    assert_eq!(f.books().len(), 2);
    let b = f.books().get("A").unwrap();
    assert_eq!(b.market_id, "M");
    assert_eq!(b.best_ask(), None);
}

#[test]
fn a_snapshot_replaces_the_sides_that_it_lists() {
    let mut f = feed();
    let msg = object(vec![
        ("event_type", text("book")),
        ("asset_id", text("A")),
        ("bids", Json::Array(vec![level("0.3", "5"), level("0.31", "6")])),
        ("asks", Json::Array(vec![level("0.4", "7")])),
    ]);
    assert_eq!(told(f.handle_payload_at(&msg, at(3))), vec!["A".to_string()]);
    let b = f.books().get("A").unwrap();
    assert_eq!(b.best_bid(), Some((dec("0.31"), dec("6"))));
    assert_eq!(b.best_ask(), Some((dec("0.4"), dec("7"))));
    assert_eq!(b.last_update_ts_ms, 3000);
    let msg = object(vec![
        ("event_type", text("book")),
        ("asset_id", text("A")),
        ("asks", Json::Array(vec![level("0.45", "1")])),
    ]);
    f.handle_payload_at(&msg, at(4));
    let b = f.books().get("A").unwrap();
    assert_eq!(b.best_bid(), Some((dec("0.31"), dec("6"))));
    assert_eq!(b.best_ask(), Some((dec("0.45"), dec("1"))));
}

#[test]
fn changes_apply_to_the_named_side_in_either_case() {
    let mut f = feed();
    let msg = object(vec![
        ("event_type", text("price_change")),
        (
            "price_changes",
            Json::Array(vec![
                change("A", "0.4", "10", "sell"),
                change("A", "0.3", "11", "BUY"),
                change("B", "0.5", "12", "Sell"),
                change("A", "0.39", "13", "SELL"),
                change("C", "0.1", "1", "SELL"),
                change("B", "x", "1", "SELL"),
                change("B", "0.2", "1", "HOLD"),
                text("nothing"),
            ]),
        ),
    ]);
    let names = told(f.handle_payload_at(&msg, at(9)));
    assert_eq!(names, vec!["A".to_string(), "B".to_string()]);
    let a = f.books().get("A").unwrap();
    assert_eq!(a.best_ask(), Some((dec("0.39"), dec("13"))));
    assert_eq!(a.best_bid(), Some((dec("0.3"), dec("11"))));
    assert_eq!(f.books().get("B").unwrap().best_ask(), Some((dec("0.5"), dec("12"))));
    assert!(f.books().get("C").is_none());
    let gone = object(vec![
        ("event_type", text("price_change")),
        ("price_changes", Json::Array(vec![change("A", "0.39", "0", "SELL")])),
    ]);
    f.handle_payload_at(&gone, at(10));
    assert_eq!(f.books().get("A").unwrap().best_ask(), Some((dec("0.4"), dec("10"))));
    assert!(f.apply_change("A", dec("0.2"), dec("3"), "SELL", at(11)));
    assert!(!f.apply_change("A", dec("0.2"), dec("3"), "sell", at(11)));
    assert!(!f.apply_change("C", dec("0.2"), dec("3"), "SELL", at(11)));
    assert_eq!(f.books().get("A").unwrap().best_ask(), Some((dec("0.2"), dec("3"))));
}

#[test]
fn best_prices_only_wake_the_reader() {
    let mut f = feed();
    let msg = object(vec![("event_type", text("best_bid_ask")), ("asset_id", text("B"))]);
    assert_eq!(told(f.handle_payload_at(&msg, at(2))), vec!["B".to_string()]);
    assert_eq!(f.books().get("B").unwrap().best_ask(), None);
    assert_eq!(f.books().get("B").unwrap().last_update_ts_ms, 0);
    let msg = object(vec![("event_type", text("best_bid_ask")), ("asset_id", text("Z"))]);
    assert!(told(f.handle_payload_at(&msg, at(2))).is_empty());
}

#[test]
fn lists_are_taken_one_by_one_and_the_rest_is_passed_over() {
    let mut f = feed();
    let msg = Json::Array(vec![
        object(vec![("event_type", text("best_bid_ask")), ("asset_id", text("A"))]),
        text("x"),
        object(vec![("event_type", text("last_trade_price")), ("asset_id", text("A"))]),
        object(vec![("asset_id", text("A"))]),
        object(vec![("event_type", text("best_bid_ask")), ("asset_id", text("A"))]),
    ]);
    assert_eq!(told(f.handle_payload_at(&msg, at(5))), vec!["A".to_string(), "A".to_string()]);
    assert!(told(f.handle_payload_at(&Json::Null, at(5))).is_empty());
    assert_eq!(f.books().len(), 2);
}

#[test]
fn following_twice_brings_no_news() {
    let mut f = feed();
    f.apply_change("A", dec("0.2"), dec("3"), "SELL", at(1));
    let mut more = StringMap::new();
    more.insert("A".to_string(), "N".to_string());
    more.insert("C".to_string(), "N".to_string());
    assert!(f.subscribe(&more));
    assert!(!f.subscribe(&more));
    assert_eq!(f.books().len(), 3);
    assert_eq!(f.books().get("A").unwrap().market_id, "M");
    assert_eq!(f.books().get("A").unwrap().best_ask(), Some((dec("0.2"), dec("3"))));
    assert_eq!(f.books().get("C").unwrap().market_id, "N");
}

#[test]
fn a_connection_subscribes_to_all_assets() {
    match feed().connect_plan() {
        ConnectPlan::Subscribe(mut ids) => {
            ids.sort();
            assert_eq!(ids, vec!["A".to_string(), "B".to_string()]);
        }
        _ => panic!("there are assets"),
    }
    match PolymarketMarketWS::new("u", StringMap::new()).connect_plan() {
        ConnectPlan::WaitForAssets(5) => {}
        _ => panic!("there are no assets"),
    }
}

#[test]
fn events_are_acted_upon() {
    let read = |e: FeedEvent| match on_event(e) {
        FeedAction::Leave => "leave".to_string(),
        FeedAction::Fail => "fail".to_string(),
        FeedAction::Skip => "skip".to_string(),
        FeedAction::Read(s) => format!("read {}", s),
    };
    assert_eq!(read(FeedEvent::Stop), "leave");
    assert_eq!(read(FeedEvent::Resubscribe), "leave");
    assert_eq!(read(FeedEvent::Silence), "leave");
    assert_eq!(read(FeedEvent::Ended), "leave");
    assert_eq!(read(FeedEvent::Close), "leave");
    assert_eq!(read(FeedEvent::Failed), "fail");
    assert_eq!(read(FeedEvent::Control), "skip");
    assert_eq!(read(FeedEvent::Text(" PONG\n".to_string())), "skip");
    assert_eq!(read(FeedEvent::Text(" \n".to_string())), "skip");
    assert_eq!(read(FeedEvent::Text("INVALID OPERATION ".to_string())), "leave");
    assert_eq!(read(FeedEvent::Text(" {} ".to_string())), "read {}");
    assert_eq!(read(FeedEvent::Binary("\u{e9} ".as_bytes().to_vec())), "read \u{e9}");
    assert_eq!(read(FeedEvent::Binary(vec![0xff, 0xfe])), "skip");
    assert!(matches!(on_text("PONG "), FeedAction::Read(_)));
}

#[test]
fn texts_are_read_as_json() {
    let mut f = feed();
    let snapshot = r#" {"event_type": "book", "asset_id": "A",
        "bids": [{"price": "0.4", "size": "100"}], "asks": [["0.6", "7"], {"price": 1}]} "#;
    assert_eq!(told(f.handle_text_at(snapshot, at(3))), vec!["A".to_string()]);
    let book = f.books().get("A").unwrap();
    assert_eq!(book.last_update_ts_ms, 3000);
    assert_eq!(book.best_bid(), Some((dec("0.4"), dec("100"))));
    assert_eq!(book.best_ask(), Some((dec("0.6"), dec("7"))));
    let list = r#"[{"event_type": "best_bid_ask", "asset_id": "B"}, 5, null, true, "x",
        {"event_type": "best_bid_ask", "asset_id": "A"}]"#;
    assert_eq!(told(f.handle_text_at(list, at(4))), vec!["B".to_string(), "A".to_string()]);
    assert_eq!(f.books().get("B").unwrap().last_update_ts_ms, 0);
    for bad in ["", "{", "PONG", "[1,]", "{'a': 1}", "3", "\"book\""] {
        assert!(told(f.handle_text_at(bad, at(5))).is_empty());
    }
    assert_eq!(f.books().get("A").unwrap().last_update_ts_ms, 3000);
    assert_eq!(told(f.handle_text(snapshot)), vec!["A".to_string()]);
    assert!(f.books().get("A").unwrap().last_update_ts_ms > 4000);
}
