//! What the slug of a market says.

use bot_polymarket_rust::pricing_model::{
    parse_unix_close_from_slug, product_id_from_slug, strike_time_for_5m_market,
};

#[test]
fn slug_parsing() {
    assert_eq!(parse_unix_close_from_slug("btc-updown-5m-1778621400"), Some(1778621400));
    assert_eq!(product_id_from_slug("btc-updown-5m-..."), Some("BTC-USD"));
    assert_eq!(product_id_from_slug("eth-updown-5m-..."), Some("ETH-USD"));
    assert_eq!(product_id_from_slug("trump-2028"), None);
}

#[test]
fn close_is_the_number_after_the_last_dash() {
    assert_eq!(parse_unix_close_from_slug("1778621400"), Some(1778621400));
    assert_eq!(parse_unix_close_from_slug("btc--5"), Some(5));
    assert_eq!(parse_unix_close_from_slug("btc-+5"), Some(5));
    assert_eq!(parse_unix_close_from_slug("btc-5m"), None);
    assert_eq!(parse_unix_close_from_slug(""), None);
    assert_eq!(parse_unix_close_from_slug("btc-"), None);
    assert_eq!(parse_unix_close_from_slug("btc-9223372036854775807"), Some(i64::MAX));
    assert_eq!(parse_unix_close_from_slug("btc-9223372036854775808"), None);
}

#[test]
fn products_are_told_by_name_and_by_short_name() {
    assert_eq!(product_id_from_slug("Bitcoin-up-or-down"), Some("BTC-USD"));
    assert_eq!(product_id_from_slug("BTC-UPDOWN-5M-1"), Some("BTC-USD"));
    assert_eq!(product_id_from_slug("will-ethereum-rise"), Some("ETH-USD"));
    assert_eq!(product_id_from_slug("sol-updown-15m-1"), Some("SOL-USD"));
    assert_eq!(product_id_from_slug("solana-up"), Some("SOL-USD"));
    assert_eq!(product_id_from_slug("xrp-updown-5m-1"), Some("XRP-USD"));
    assert_eq!(product_id_from_slug(""), None);
}

#[test]
fn market_opens_five_minutes_before_it_closes() {
    assert_eq!(strike_time_for_5m_market(1778621400), 1778621100);
}
