//! Settings, commands, sessions and records.

use bot_polymarket_rust::cli::{parse_command, Command};
use bot_polymarket_rust::config::Settings;
use bot_polymarket_rust::decimal::Decimal;
use bot_polymarket_rust::double::Double;
use bot_polymarket_rust::recorder::{comes_before, is_blank, RecordWindow};
use bot_polymarket_rust::session::{next_session, SessionAction, SessionEvent};
use bot_polymarket_rust::string_map::StringMap;
use bot_polymarket_rust::timestamp::Timestamp;

fn dec(text: &str) -> Decimal {
    Decimal::parse_exact(text).unwrap()
}

fn vars(entries: &[(&str, &str)]) -> StringMap<String> {
    let mut m = StringMap::new();
    for (k, v) in entries {
        m.insert(k.to_string(), v.to_string());
    }
    m
}

#[test]
fn settings_have_defaults() {
    let s = Settings::from_env(&StringMap::new()).unwrap();
    assert_eq!(s.poly_ws_url, "wss://ws-subscriptions-clob.polymarket.com/ws/market");
    assert_eq!(s.gamma_url, "https://gamma-api.polymarket.com");
    assert_eq!(s.arb_min_edge_per_unit, dec("0.002"));
    assert_eq!(s.arb_max_size_usdc, dec("20"));
    assert_eq!(s.arb_fee_rate_bps, 180);
    assert_eq!(s.arb_slippage_buffer_bps, 20);
    assert_eq!(s.arb_markets_refresh_seconds, 120);
    assert_eq!(s.arb_horizon_seconds, 7200);
    assert_eq!(s.arb_gamma_limit, 500);
    assert_eq!(s.db_path, "state/rust_bot.jsonl");
    assert_eq!(s.stop_file_path, "state/STOP");
}

#[test]
fn settings_are_read() {
    let s = Settings::from_env(&vars(&[
        ("POLY_WS_URL", "w"),
        ("GAMMA_URL", "g"),
        ("ARB_MIN_EDGE_PER_UNIT", "0.02"),
        ("ARB_MAX_SIZE_USDC", "1e2"),
        ("ARB_FEE_RATE_BPS", "+1"),
        ("ARB_SLIPPAGE_BUFFER_BPS", "2"),
        ("ARB_MARKETS_REFRESH_SECONDS", "3"),
        ("ARB_HORIZON_SECONDS", "18446744073709551615"),
        ("ARB_GAMMA_LIMIT", "5"),
        ("DB_PATH", "d"),
        ("STOP_FILE_PATH", "s"),
    ]));
    match s {
        Ok(s) => {
            assert_eq!(s.arb_min_edge_per_unit, dec("0.02"));
            assert_eq!(s.arb_fee_rate_bps, 1);
            assert_eq!(s.arb_horizon_seconds, u64::MAX);
            assert_eq!(s.db_path, "d");
        }
        Err(e) => {
            // Whether "1e2" is an amount is for the crate that reads it to say.
            assert_eq!(e.message(), "ARB_MAX_SIZE_USDC not a decimal: 1e2");
            assert!("1e2".parse::<rust_decimal::Decimal>().is_err());
        }
    }
}

#[test]
fn settings_that_cannot_be_read_are_told() {
    let told = |k: &str, v: &str| Settings::from_env(&vars(&[(k, v)])).unwrap_err().message();
    assert_eq!(told("ARB_MIN_EDGE_PER_UNIT", "x"), "ARB_MIN_EDGE_PER_UNIT not a decimal: x");
    assert_eq!(told("ARB_MAX_SIZE_USDC", ""), "ARB_MAX_SIZE_USDC not a decimal: ");
    assert_eq!(told("ARB_FEE_RATE_BPS", "-1"), "ARB_FEE_RATE_BPS not a u32: -1");
    assert_eq!(told("ARB_SLIPPAGE_BUFFER_BPS", "1.5"), "ARB_SLIPPAGE_BUFFER_BPS not a u32: 1.5");
    assert_eq!(
        told("ARB_MARKETS_REFRESH_SECONDS", "soon"),
        "ARB_MARKETS_REFRESH_SECONDS not a u64: soon"
    );
    assert_eq!(told("ARB_HORIZON_SECONDS", " 1"), "ARB_HORIZON_SECONDS not a u64:  1");
    assert_eq!(told("ARB_GAMMA_LIMIT", "4294967296"), "ARB_GAMMA_LIMIT not a u32: 4294967296");
    let e = Settings::from_env(&vars(&[("ARB_GAMMA_LIMIT", "x"), ("ARB_FEE_RATE_BPS", "y")]));
    assert_eq!(e.unwrap_err().key, "ARB_FEE_RATE_BPS");
    let s = Settings::with_amounts(&StringMap::new(), dec("1"), dec("2")).unwrap();
    assert_eq!(s.arb_min_edge_per_unit, dec("1"));
    assert_eq!(s.arb_max_size_usdc, dec("2"));
}

fn command(words: &[&str]) -> Command {
    let mut args = vec!["polybot".to_string()];
    for w in words {
        args.push(w.to_string());
    }
    parse_command(&args)
}

#[test]
fn commands_are_told_apart() {
    assert!(matches!(parse_command(&Vec::new()), Command::Run));
    assert!(matches!(command(&[]), Command::Run));
    assert!(matches!(command(&["run"]), Command::Run));
    assert!(matches!(command(&["trinity"]), Command::Trinity(600)));
    assert!(matches!(command(&["trinity", "30"]), Command::Trinity(30)));
    assert!(matches!(command(&["trinity", "x"]), Command::Trinity(600)));
    assert!(matches!(command(&["smoke"]), Command::Smoke));
    assert!(matches!(command(&["stats"]), Command::Stats));
    assert!(matches!(command(&["live-dry", "5"]), Command::LiveDry(5)));
    assert!(matches!(command(&["live", "5"]), Command::Live(5)));
    assert!(matches!(command(&["health-check"]), Command::HealthCheck));
    assert!(matches!(command(&["derive-keys"]), Command::DeriveKeys));
    assert!(matches!(command(&["discover"]), Command::Discover));
    for h in ["help", "-h", "--help"] {
        assert!(matches!(command(&[h]), Command::Help));
    }
    match command(&["place-tp"]) {
        Command::PlaceTp(d) => assert_eq!(d, dec("15")),
        _ => panic!("fifteen percent"),
    }
    match command(&["place-tp", "7.5"]) {
        Command::PlaceTp(d) => assert_eq!(d, dec("7.5")),
        _ => panic!("seven and a half percent"),
    }
    match command(&["place-tp", "all"]) {
        Command::BadPercentage(s) => assert_eq!(s, "all"),
        _ => panic!("this is no percentage"),
    }
    match command(&["RUN"]) {
        Command::Unknown(s) => assert_eq!(s, "RUN"),
        _ => panic!("commands are in small letters"),
    }
}

#[test]
fn waits_double_up_to_a_limit() {
    let mut wait = 1;
    let mut seen = Vec::new();
    for _ in 0..8 {
        let (action, next) = next_session(SessionEvent::Failed, wait);
        assert_eq!(action, SessionAction::WaitThenReconnect(wait));
        seen.push(wait);
        wait = next;
    }
    assert_eq!(seen, vec![1, 2, 4, 8, 16, 30, 30, 30]);
    assert_eq!(next_session(SessionEvent::Ended, 30), (SessionAction::Reconnect, 1));
    assert_eq!(next_session(SessionEvent::Stopped, 8), (SessionAction::Exit, 8));
}

#[test]
fn texts_are_ordered_as_the_standard_library_orders_them() {
    let texts = ["", "a", "ab", "b", "A", "\u{e9}", "\u{ffff}", "\u{10000}", "2026-05-12", "2026-05-12T"];
    for a in texts {
        for b in texts {
            assert_eq!(comes_before(a, b), a < b);
        }
    }
}

#[test]
fn a_window_covers_all_its_times() {
    let mut w = RecordWindow::new();
    assert_eq!((w.count, w.t_min.as_deref(), w.t_max.as_deref()), (0, None, None));
    for t in [50i64, 10, 30, 90, 70] {
        w.note(Timestamp::from_unix(t, 0).unwrap(), Double { bits: (-0.5f64).to_bits() });
    }
    assert_eq!(w.count, 5);
    assert_eq!(w.t_min.as_deref(), Some("1970-01-01T00:00:10+00:00"));
    assert_eq!(w.t_max.as_deref(), Some("1970-01-01T00:01:30+00:00"));
    assert_eq!(f64::from_bits(w.max_edge.bits), 0.0);
    w.note_text("0".to_string(), Double { bits: f64::NAN.to_bits() });
    assert_eq!(w.t_min.as_deref(), Some("0"));
    assert_eq!(w.count, 6);
    assert_eq!(f64::from_bits(w.max_edge.bits), 0.0);
    assert!(is_blank(" \t") && is_blank("") && !is_blank(" x "));
}

#[test]
fn a_record_counts_the_lines_that_hold_an_opportunity() {
    let at = |t: i64| Timestamp::from_unix(t, 0).unwrap();
    let edge = |e: f64| Double { bits: e.to_bits() };
    let mut w = RecordWindow::new();
    assert!(w.note_line("{\"a\":1}", Some((at(20), edge(0.01)))));
    assert!(!w.note_line("  \t", Some((at(5), edge(0.9)))));
    assert!(!w.note_line("{\"a\":", None));
    assert!(!w.note_line("", None));
    assert!(w.note_line("{\"a\":2}", Some((at(10), edge(0.03)))));
    assert!(w.note_line("{\"a\":3}", Some((at(30), edge(0.02)))));
    assert_eq!(w.count, 3);
    assert_eq!(f64::from_bits(w.max_edge.bits), 0.03);
    assert_eq!(w.t_min.as_deref(), Some("1970-01-01T00:00:10+00:00"));
    assert_eq!(w.t_max.as_deref(), Some("1970-01-01T00:00:30+00:00"));
}
