//! The feed of exchange prices.

use bot_polymarket_rust::cex_feed::{
    on_cex_event, read_ticker, ticker_with, CexFeed, CexState, TickerMessage,
};
use bot_polymarket_rust::double::Double;
use bot_polymarket_rust::poly_ws::{FeedAction, FeedEvent};
use bot_polymarket_rust::timestamp::Timestamp;

fn double(x: f64) -> Double {
    Double { bits: x.to_bits() }
}

fn at(millis: i64) -> Timestamp {
    Timestamp::from_unix(millis.div_euclid(1000), (millis.rem_euclid(1000) * 1_000_000) as u32).unwrap()
}

#[test]
fn returns_are_kept_with_their_distance() {
    let mut s = CexState::new("BTC-USD");
    assert_eq!(s.product_id(), "BTC-USD");
    assert_eq!(s.last_price(), None);
    s.update(double(63000.0), at(0), double(9.0));
    assert_eq!(s.tick_count(), 0);
    s.update(double(63010.0), at(1500), double(0.1));
    assert_eq!(s.tick_count(), 1);
    assert_eq!(s.tick(0), (double(0.1), 1500));
    assert_eq!(s.last_price(), Some(double(63010.0)));
    assert_eq!(s.last_time(), Some(at(1500)));
}

#[test]
fn ticks_that_say_nothing_make_no_return() {
    let mut s = CexState::new("BTC-USD");
    s.update(double(1.0), at(0), double(0.0));
    s.update(double(2.0), at(0), double(0.0));
    assert_eq!(s.tick_count(), 0);
    s.update(double(2.0), at(-5), double(0.0));
    assert_eq!(s.tick_count(), 0);
    s.update(double(2.0), at(299_995), double(0.0));
    assert_eq!(s.tick_count(), 0);
    s.update(double(2.0), at(599_994), double(0.0));
    assert_eq!(s.tick_count(), 1);
    s.update(double(0.0), at(600_000), double(0.0));
    s.update(double(3.0), at(600_001), double(0.0));
    s.update(double(-1.0), at(600_002), double(0.0));
    s.update(double(f64::NAN), at(600_003), double(0.0));
    assert_eq!(s.tick_count(), 1);
}

#[test]
fn sixty_returns_are_kept() {
    let mut s = CexState::new("BTC-USD");
    for i in 0..100i64 {
        s.update(double(63000.0), at(i * 1000), double(i as f64));
        assert_eq!(s.has_volatility(), i >= 10);
    }
    assert_eq!(s.tick_count(), 60);
    assert_eq!(s.tick(0), (double(40.0), 1000));
    assert_eq!(s.tick(59), (double(99.0), 1000));
}

fn ticker() -> TickerMessage {
    TickerMessage {
        type_: "ticker".to_string(),
        product_id: Some("BTC-USD".to_string()),
        price: Some("63420.5".to_string()),
        time: Some("2026-05-12T00:00:00.5Z".to_string()),
    }
}

#[test]
fn complete_tickers_are_read() {
    let (product, price, time) = read_ticker(ticker()).unwrap();
    assert_eq!(product, "BTC-USD");
    assert_eq!(price, "63420.5");
    assert_eq!(time.unix_millis(), 1778544000500);
    let mut m = ticker();
    m.type_ = "subscriptions".to_string();
    assert!(read_ticker(m).is_none());
    let mut m = ticker();
    m.product_id = None;
    assert!(read_ticker(m).is_none());
    let mut m = ticker();
    m.price = None;
    assert!(read_ticker(m).is_none());
    let mut m = ticker();
    m.time = None;
    assert!(read_ticker(m).is_none());
    let mut m = ticker();
    m.time = Some("noon".to_string());
    assert!(read_ticker(m).is_none());
    assert!(ticker_with(ticker(), None).is_none());
    assert_eq!(ticker_with(ticker(), Some(at(7))).unwrap().2, at(7));
}

#[test]
fn a_feed_takes_in_its_own_products() {
    let mut f = CexFeed::new(vec!["BTC-USD".to_string(), "ETH-USD".to_string()]);
    assert_eq!(f.products().len(), 2);
    assert_eq!(f.snapshot().len(), 2);
    f.on_tick("ETH-USD", double(3000.0), at(1), double(0.0));
    f.on_tick("SOL-USD", double(100.0), at(1), double(0.0));
    assert_eq!(f.snapshot().get("ETH-USD").unwrap().last_price(), Some(double(3000.0)));
    assert_eq!(f.snapshot().get("BTC-USD").unwrap().last_price(), None);
    assert!(f.snapshot().get("SOL-USD").is_none());
}

#[test]
fn only_texts_are_read() {
    assert!(matches!(on_cex_event(FeedEvent::Text("{}".to_string())), FeedAction::Read(_)));
    assert!(matches!(on_cex_event(FeedEvent::Binary(vec![1])), FeedAction::Skip));
    assert!(matches!(on_cex_event(FeedEvent::Control), FeedAction::Skip));
    assert!(matches!(on_cex_event(FeedEvent::Failed), FeedAction::Fail));
    assert!(matches!(on_cex_event(FeedEvent::Close), FeedAction::Leave));
    assert!(matches!(on_cex_event(FeedEvent::Silence), FeedAction::Leave));
    assert!(matches!(on_cex_event(FeedEvent::Ended), FeedAction::Leave));
    assert!(matches!(on_cex_event(FeedEvent::Stop), FeedAction::Leave));
}
