//! Which markets are followed.

use bot_polymarket_rust::gamma::{
    end_of_horizon, judge_listing, markets_url, query_parameters, select_market, select_markets,
    speaks_of_crypto, speaks_of_short_life, GammaMarketRaw, Readings, CRYPTO_PATTERN,
    HOURLY_PATTERN,
};
use bot_polymarket_rust::timestamp::Timestamp;

#[test]
fn crypto_re_matches() {
    assert!(speaks_of_crypto("bitcoin-up-or-down-on-may-12"));
    assert!(speaks_of_crypto("ethereum"));
    assert!(speaks_of_crypto("sol"));
    assert!(!speaks_of_crypto("trump-election"));
}

#[test]
fn hourly_re_matches() {
    assert!(speaks_of_short_life("up-or-down"));
    assert!(speaks_of_short_life("above-79000"));
    assert!(speaks_of_short_life("updown"));
    assert!(speaks_of_short_life("hourly-bitcoin"));
    assert!(!speaks_of_short_life("trump-win-2026"));
}

#[test]
fn patterns_are_regular_expressions() {
    assert!(regex::Regex::new(CRYPTO_PATTERN).is_ok());
    assert!(regex::Regex::new(HOURLY_PATTERN).is_ok());
    assert!(speaks_of_short_life("btc 5m market"));
    assert!(!speaks_of_short_life("btc 25m market"));
    assert!(speaks_of_short_life("UP OR  DOWN"));
}

fn now() -> Timestamp {
    Timestamp::parse_rfc3339("2026-05-12T00:00:00Z").unwrap()
}

fn listing() -> GammaMarketRaw {
    GammaMarketRaw {
        condition_id: Some("0xC".to_string()),
        slug: Some("BTC-updown-5m-1778544300".to_string()),
        question: Some("Bitcoin Up or Down?".to_string()),
        clob_token_ids: Some("[\"11\", \"22\"]".to_string()),
        end_date: Some("2026-05-12T00:05:00Z".to_string()),
        closed: false,
        neg_risk: true,
    }
}

#[test]
fn an_open_crypto_market_that_ends_soon_is_followed() {
    let m = select_market(&listing(), now(), 7200).unwrap();
    assert_eq!(m.condition_id, "0xC");
    assert_eq!(m.slug, "BTC-updown-5m-1778544300");
    assert_eq!(m.question, "Bitcoin Up or Down?");
    assert_eq!(m.yes_token_id, "11");
    assert_eq!(m.no_token_id, "22");
    assert_eq!(m.end_date, now().plus_seconds(300));
    assert!(m.neg_risk);
}

#[test]
fn incomplete_closed_or_late_markets_are_not_followed() {
    let mut raw = listing();
    raw.closed = true;
    assert!(select_market(&raw, now(), 7200).is_none());
    let mut raw = listing();
    raw.condition_id = None;
    assert!(select_market(&raw, now(), 7200).is_none());
    let mut raw = listing();
    raw.slug = None;
    assert!(select_market(&raw, now(), 7200).is_none());
    let mut raw = listing();
    raw.question = None;
    assert!(select_market(&raw, now(), 7200).is_none());
    for tokens in [None, Some("[\"11\"]"), Some("[\"1\",\"2\",\"3\"]"), Some("[1,2]"), Some("11,22")] {
        let mut raw = listing();
        raw.clob_token_ids = tokens.map(|t| t.to_string());
        assert!(select_market(&raw, now(), 7200).is_none());
    }
    for end in [None, Some("soon"), Some("2026-05-11T23:59:59Z"), Some("2026-05-12T02:00:01Z")] {
        let mut raw = listing();
        raw.end_date = end.map(|t| t.to_string());
        assert!(select_market(&raw, now(), 7200).is_none());
    }
    let mut raw = listing();
    raw.slug = Some("trump-updown".to_string());
    raw.question = Some("Up or down?".to_string());
    assert!(select_market(&raw, now(), 7200).is_none());
    let mut raw = listing();
    raw.slug = Some("btc".to_string());
    raw.question = Some("Bitcoin?".to_string());
    assert!(select_market(&raw, now(), 7200).is_none());
}

#[test]
fn ends_count_in_whole_seconds() {
    let mut raw = listing();
    raw.end_date = Some("2026-05-11T23:59:59.5Z".to_string());
    assert!(select_market(&raw, now(), 7200).is_some());
    raw.end_date = Some("2026-05-12T02:00:00.9Z".to_string());
    assert!(select_market(&raw, now(), 7200).is_some());
    assert!(select_market(&raw, now(), 7199).is_none());
}

#[test]
fn followed_markets_keep_their_order() {
    let mut first = listing();
    first.condition_id = Some("1".to_string());
    let mut second = listing();
    second.closed = true;
    let mut third = listing();
    third.condition_id = Some("3".to_string());
    let found = select_markets(&vec![first, second, third], now(), 7200);
    let ids: Vec<&str> = found.iter().map(|m| m.condition_id.as_str()).collect();
    assert_eq!(ids, vec!["1", "3"]);
    for m in &found {
        let left = m.end_date.unwrap().seconds_since(&now());
        assert!((0..=7200).contains(&left));
    }
}

#[test]
fn readings_decide() {
    let ids = vec!["11".to_string(), "22".to_string()];
    let mut r = Readings {
        token_ids: Some(ids),
        end: now().plus_seconds(60),
        speaks_of_crypto: true,
        speaks_of_short_life: true,
    };
    assert!(judge_listing(&listing(), &r, now(), 60).is_some());
    assert!(judge_listing(&listing(), &r, now(), 59).is_none());
    r.speaks_of_crypto = false;
    assert!(judge_listing(&listing(), &r, now(), 60).is_none());
    r.speaks_of_crypto = true;
    r.speaks_of_short_life = false;
    assert!(judge_listing(&listing(), &r, now(), 60).is_none());
    r.speaks_of_short_life = true;
    r.token_ids = None;
    assert!(judge_listing(&listing(), &r, now(), 60).is_none());
}

#[test]
fn the_query_asks_for_open_markets_that_end_in_time() {
    let end = end_of_horizon(now(), 7200).unwrap();
    let q = query_parameters(now(), end, 500);
    let wanted = vec![
        ("active", "true"),
        ("closed", "false"),
        ("limit", "500"),
        ("order", "endDate"),
        ("ascending", "true"),
        ("archived", "false"),
        ("end_date_min", "2026-05-12T00:00:00+00:00"),
        ("end_date_max", "2026-05-12T02:00:00+00:00"),
        ("liquidity_num_min", "50"),
    ];
    let got: Vec<(&str, &str)> = q.iter().map(|p| (p.0, p.1.as_str())).collect();
    assert_eq!(got, wanted);
    assert_eq!(markets_url("https://g"), "https://g/markets");
    assert_eq!(end_of_horizon(now(), u64::MAX), now().plus_seconds(-1));
    assert_eq!(end_of_horizon(now(), i64::MAX as u64), None);
}
