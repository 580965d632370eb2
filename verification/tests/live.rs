//! Limits, wallets and trades.

use bot_polymarket_rust::decimal::Decimal;
use bot_polymarket_rust::live::{
    check_bare_key, check_private_key, parse_funder_config, wallet_from, Admission, ArbLegOrder,
    ArbSide, ArbStatus, KeyError, LiveExecutor, Refusal, SafetyLimits, SafetyState, SetupError,
    SignatureType, WalletError,
};
use bot_polymarket_rust::string_map::StringMap;
use bot_polymarket_rust::timestamp::Timestamp;

fn dec(text: &str) -> Decimal {
    Decimal::parse_exact(text).unwrap()
}

fn vars(entries: &[(&str, &str)]) -> StringMap<String> {
    let mut m = StringMap::new();
    for (k, v) in entries {
        m.insert(k.to_string(), v.to_string());
    }
    m
}

fn key() -> String {
    "ab".repeat(32)
}

fn executor() -> LiveExecutor {
    LiveExecutor::init(&key(), &vars(&[]), SafetyLimits::default()).unwrap()
}

fn leg(size: &str) -> ArbLegOrder {
    ArbLegOrder { token_id: "1".to_string(), side: ArbSide::Buy, size_usdc: dec(size) }
}

#[test]
fn safety_limits_default_conservative() {
    let lim = SafetyLimits::default();
    assert_eq!(lim.max_total_capital_usdc, Decimal::from_u32(30));
    assert_eq!(lim.max_per_trade_usdc, Decimal::from_u32(3));
    assert_eq!(lim.max_trades_per_hour, 12);
}

#[test]
fn safety_state_prunes_old_trades() {
    let mut s = SafetyState::default();
    s.note_time(Timestamp::now().plus_seconds(-2 * 3600).unwrap());
    s.note_time(Timestamp::now());
    s.prune_old();
    assert_eq!(s.trade_count(), 1);
}

#[test]
fn arb_side_maps() {
    assert_eq!(ArbSide::Buy as u8, 0);
    assert_eq!(ArbSide::Sell as u8, 1);
}

#[test]
fn an_hour_is_kept_to_the_instant() {
    let now = Timestamp::from_unix(1_000_000, 0).unwrap();
    let mut s = SafetyState::default();
    s.note_time(now.plus_seconds(-3600).unwrap());
    s.note_time(Timestamp::from_unix(1_000_000 - 3600, 1).unwrap());
    s.note_time(now.plus_seconds(5).unwrap());
    assert_eq!(s.recent_trades_count_at(now), 2);
    assert_eq!(s.capital_used_usdc(), Decimal::zero());
}

#[test]
fn keys_are_64_hexadecimal_digits() {
    assert_eq!(check_private_key(&key()).unwrap(), key());
    assert_eq!(check_private_key(&format!(" 0x{}\n", key())).unwrap(), key());
    assert_eq!(check_private_key(&format!("0x0x{}", key())).unwrap(), key());
    assert_eq!(check_private_key("ab"), Err(KeyError::Length));
    assert_eq!(check_private_key(&format!("{}0", key())), Err(KeyError::Length));
    assert_eq!(check_private_key(&"zz".repeat(32)), Err(KeyError::NotHex));
    assert_eq!(check_private_key(&"\u{e9}".repeat(32)), Err(KeyError::NotHex));
    assert_eq!(check_private_key(&"\u{e9}".repeat(64)), Err(KeyError::Length));
    assert_eq!(check_bare_key(key()), Ok(key()));
    assert_eq!(check_bare_key(format!("0x{}", key())), Err(KeyError::Length));
    assert!(KeyError::Length.message().contains("64 hex"));
    assert!(KeyError::NotHex.message().contains("no-hex"));
}

const ACCOUNT: &str = "0x00000000000000000000000000000000000000ff";

#[test]
fn wallets_are_read_off_the_variables() {
    assert_eq!(parse_funder_config(&vars(&[])).unwrap(), (None, SignatureType::Eoa));
    let w = parse_funder_config(&vars(&[("SIGNATURE_TYPE", " 1 ")])).unwrap();
    assert_eq!(w, (None, SignatureType::Proxy));
    let v = vars(&[("SIGNATURE_TYPE", "2"), ("FUNDER_ADDRESS", ACCOUNT)]);
    let (account, kind) = parse_funder_config(&v).unwrap();
    assert_eq!(kind, SignatureType::GnosisSafe);
    let account = account.unwrap();
    assert_eq!(account.len(), 20);
    assert_eq!(account[19], 255);
    let v = vars(&[("FUNDER_ADDRESS", "  ")]);
    assert_eq!(parse_funder_config(&v).unwrap(), (None, SignatureType::Eoa));
}

#[test]
fn wallets_that_cannot_be_used_are_told() {
    match parse_funder_config(&vars(&[("SIGNATURE_TYPE", "3 ")])) {
        Err(WalletError::SignatureType(s)) => assert_eq!(s, "3"),
        _ => panic!("there is no third type"),
    }
    match parse_funder_config(&vars(&[("FUNDER_ADDRESS", "0x12")])) {
        Err(e) => assert_eq!(e.message(), "FUNDER_ADDRESS no es Address valida: 0x12"),
        _ => panic!("this is no account"),
    }
    let e = WalletError::SignatureType("x".to_string());
    assert_eq!(e.message(), "SIGNATURE_TYPE invalido: x");
    assert!(wallet_from("0", Some(("t", None))).is_err());
    assert_eq!(
        wallet_from("1", Some(("t", Some(vec![7])))).unwrap(),
        (Some(vec![7]), SignatureType::Proxy)
    );
}

#[test]
fn an_executor_needs_a_key_and_a_wallet() {
    match LiveExecutor::init("x", &vars(&[]), SafetyLimits::default()) {
        Err(SetupError::Key(KeyError::Length)) => {}
        _ => panic!("the key is too short"),
    }
    match LiveExecutor::init(&key(), &vars(&[("SIGNATURE_TYPE", "9")]), SafetyLimits::default()) {
        Err(SetupError::Wallet(_)) => {}
        _ => panic!("there is no such type"),
    }
    let x = executor();
    assert_eq!(x.private_key_hex(), key());
    assert_eq!(x.funder(), None);
    assert_eq!(x.signature_type(), SignatureType::Eoa);
}

#[test]
fn trades_above_the_limits_are_refused() {
    let mut x = executor();
    let now = Timestamp::from_unix(1_000_000, 0).unwrap();
    assert!(x.validate_at(dec("3"), now).is_ok());
    match x.validate_at(dec("3.01"), now) {
        Err(e) => assert_eq!(e.message(), "size 3.01 > max_per_trade 3"),
        Ok(_) => panic!("the trade is too large"),
    }
    for _ in 0..9 {
        x.finish_single_leg("m".to_string(), dec("3"), Ok("id".to_string()), now, now);
    }
    match x.validate_at(dec("3.00"), now) {
        Ok(()) => {}
        Err(_) => panic!("thirty dollars may be spent"),
    }
    x.finish_single_leg("m".to_string(), dec("2"), Err("e".to_string()), now, now);
    match x.validate_at(dec("1.5"), now) {
        Err(Refusal::Capital { used, size, max }) => {
            assert_eq!((used, size, max), (dec("29"), dec("1.5"), dec("30")));
            let e = Refusal::Capital { used, size, max };
            assert_eq!(e.message(), "capital used 29 + new 1.5 > max 30");
        }
        _ => panic!("too much would be spent"),
    }
    assert!(x.validate_at(dec("1"), now).is_ok());
}

#[test]
fn no_more_trades_than_allowed_fit_in_an_hour() {
    let mut x = executor();
    let now = Timestamp::from_unix(1_000_000, 0).unwrap();
    for _ in 0..12 {
        x.finish_single_leg("m".to_string(), dec("0.1"), Ok("id".to_string()), now, now);
    }
    match x.validate_at(dec("0.1"), now.plus_seconds(3599).unwrap()) {
        Err(e) => assert_eq!(e.message(), "rate limit: 12 trades/h >= max 12"),
        Ok(_) => panic!("there were twelve trades"),
    }
    assert!(x.validate_at(dec("0.1"), now.plus_seconds(3600).unwrap()).is_ok());
}

#[test]
fn trades_are_booked_filled_or_not() {
    let mut x = executor();
    match x.begin_single_leg(&leg("2")) {
        Admission::Admitted(total) => assert_eq!(total, dec("2")),
        _ => panic!("two dollars are within the limits"),
    }
    let t = x.settle_single_leg("m".to_string(), dec("2"), Ok("id".to_string())).unwrap();
    assert_eq!(t.status, ArbStatus::OnlyAFilled);
    assert_eq!(t.order_id_a.as_deref(), Some("id"));
    assert_eq!(t.error_a, None);
    assert_eq!(t.market_id, "m");
    let t = x.settle_single_leg("m".to_string(), dec("2"), Err("no".to_string())).unwrap();
    assert_eq!(t.status, ArbStatus::BothFailed);
    assert_eq!(t.order_id_a, None);
    assert_eq!(t.error_a.as_deref(), Some("no"));
    assert!(matches!(x.begin_single_leg(&leg("4")), Admission::Refused(_)));
    assert!(x.can_book(dec("1")) && x.is_verdict_defined(dec("1")));
}

#[test]
fn two_legs_are_booked_as_one_trade() {
    let mut x = executor();
    match x.begin_arb(&leg("1.2"), &leg("1.3")) {
        Admission::Admitted(total) => assert_eq!(total, dec("2.5")),
        _ => panic!("the legs are within the limits"),
    }
    assert!(matches!(x.begin_arb(&leg("2"), &leg("1.5")), Admission::Refused(_)));
    let most = "79228162514264337593543950335";
    assert!(matches!(x.begin_arb(&leg(most), &leg(most)), Admission::Overflow));
    let ok = |s: &str| -> Result<String, String> { Ok(s.to_string()) };
    let no = |s: &str| -> Result<String, String> { Err(s.to_string()) };
    let cases = [
        (ok("a"), ok("b"), ArbStatus::BothFilled),
        (ok("a"), no("y"), ArbStatus::OnlyAFilled),
        (no("x"), ok("b"), ArbStatus::OnlyBFilled),
        (no("x"), no("y"), ArbStatus::BothFailed),
    ];
    for (a, b, status) in cases {
        let t = x.settle_arb("m".to_string(), dec("2.5"), a.clone(), b.clone()).unwrap();
        assert_eq!(t.status, status);
        assert_eq!(t.order_id_a, a.clone().ok());
        assert_eq!(t.order_id_b, b.clone().ok());
        assert_eq!(t.error_a, a.err());
        assert_eq!(t.error_b, b.err());
        assert_eq!(t.total_usdc, dec("2.5"));
    }
}
