//! Amounts, against the crate that does their arithmetic.

use bot_polymarket_rust::decimal::Decimal;
use std::str::FromStr;

fn dec(text: &str) -> Decimal {
    Decimal::parse_exact(text).unwrap()
}

fn pair(d: Decimal) -> (i128, u32) {
    (d.mantissa(), d.scale())
}

fn outside(d: Decimal) -> rust_decimal::Decimal {
    rust_decimal::Decimal::from_i128_with_scale(d.mantissa(), d.scale())
}

fn samples() -> Vec<Decimal> {
    let texts = [
        "0", "0.00", "1", "-1", "0.5", "0.018", "0.40", "0.50", "100", "1000", "0.989", "-0.1",
        "4294967295", "429496.7295", "79228162514264337593543950335",
        "-79228162514264337593543950335", "7.9228162514264337593543950335",
        "0.0000000000000000000000000001", "1.1", "3", "7", "12345678901234567890.12345678",
        "0.3333333333333333333333333333", "18446744073709551615", "18446744073709551616",
    ];
    texts.iter().map(|t| dec(t)).collect()
}

#[test]
fn sums_are_those_of_the_crate() {
    for a in samples() {
        for b in samples() {
            let found = a.checked_add(b).map(pair);
            let wanted = outside(a).checked_add(outside(b)).map(|d| (d.mantissa(), d.scale()));
            assert_eq!(found, wanted);
            let found = a.checked_sub(b).map(pair);
            let wanted = outside(a).checked_sub(outside(b)).map(|d| (d.mantissa(), d.scale()));
            assert_eq!(found, wanted);
        }
    }
}

#[test]
fn products_and_quotients_are_those_of_the_crate() {
    for a in samples() {
        for b in samples() {
            let found = a.checked_mul(b).map(pair);
            let wanted = outside(a).checked_mul(outside(b)).map(|d| (d.mantissa(), d.scale()));
            assert_eq!(found, wanted);
            let found = a.checked_div(b).map(pair);
            let wanted = outside(a).checked_div(outside(b)).map(|d| (d.mantissa(), d.scale()));
            assert_eq!(found, wanted);
        }
    }
}

#[test]
fn a_zero_leaves_the_other_term_as_it_is() {
    for b in samples() {
        for zero in [dec("0"), dec("0.000")] {
            assert_eq!(pair(zero.checked_add(b).unwrap()), pair(b));
            assert_eq!(pair(zero.checked_sub(b).unwrap()), pair(b.negate()));
            if b.mantissa() != 0 {
                assert_eq!(pair(b.checked_add(zero).unwrap()), pair(b));
                assert_eq!(pair(b.checked_sub(zero).unwrap()), pair(b));
            }
            assert_eq!(pair(zero.checked_mul(b).unwrap()), (0, 0));
            assert_eq!(pair(b.checked_mul(zero).unwrap()), (0, 0));
            assert!(b.checked_div(zero).is_none());
        }
    }
}

#[test]
fn sums_are_written_with_the_larger_scale() {
    assert_eq!(pair(dec("0.40").checked_add(dec("0.5")).unwrap()), (90, 2));
    assert_eq!(pair(dec("1").checked_sub(dec("0.903978")).unwrap()), (96022, 6));
    assert_eq!(pair(dec("0.40").checked_add(dec("-0.40")).unwrap()), (0, 2));
}

#[test]
fn products_are_rounded_half_to_even() {
    let least = Decimal::from_parts(1, 28).unwrap();
    for (factor, mantissa) in [("0.5", 0), ("1.5", 2), ("2.5", 2), ("2.50000001", 3), ("-3.5", -4)] {
        assert_eq!(least.checked_mul(dec(factor)).unwrap().mantissa(), mantissa);
    }
    let long = dec("0.1234567890123456789012345675");
    assert_eq!(long.checked_mul(dec("50")).unwrap(), dec("6.172839450617283945061728375"));
    let most = Decimal::from_parts(79228162514264337593543950335, 0).unwrap();
    assert_eq!(most.checked_mul(dec("0.25")).unwrap(), dec("19807040628566084398385987584"));
}

#[test]
fn sums_and_quotients_are_rounded_half_to_even() {
    let most = Decimal::from_parts(79228162514264337593543950335, 0).unwrap();
    let rest = Decimal::from_parts(79228162514264337593543950334, 0).unwrap();
    assert_eq!(most.checked_sub(dec("0.5")).unwrap(), rest);
    assert_eq!(rest.checked_add(dec("0.5")).unwrap(), rest);
    assert_eq!(rest.checked_add(dec("0.51")).unwrap(), most);
    assert!(most.checked_add(dec("0.5")).is_none());
    assert_eq!(most.checked_add(dec("0.49")).unwrap(), most);
    let long = dec("7.9000000000000000000000000005");
    assert_eq!(long.checked_add(dec("0.03")).unwrap(), dec("7.93"));
    assert_eq!(long.checked_add(dec("0.02")).unwrap(), dec("7.9200000000000000000000000005"));
    assert_eq!(dec("1").checked_div(dec("3")).unwrap(), dec("0.3333333333333333333333333333"));
    assert_eq!(dec("2").checked_div(dec("3")).unwrap(), dec("0.6666666666666666666666666667"));
    assert_eq!(dec("1000").checked_div(dec("7")).unwrap(), dec("142.85714285714285714285714286"));
    for (mantissa, half) in [(1, 0), (3, 2), (5, 2), (-7, -4)] {
        let least = Decimal::from_parts(mantissa, 28).unwrap();
        assert_eq!(least.checked_div(dec("2")).unwrap(), Decimal::from_parts(half, 28).unwrap());
    }
    assert!(most.checked_div(dec("0.5")).is_none());
}

#[test]
fn products_go_by_the_value_of_their_factors() {
    let edge = dec("0.0534872361938471625374819271");
    for (a, b) in [("50", "50.0"), ("50", "50.00000000"), ("7.3", "7.300"), ("1000000", "1000000.0")] {
        assert_eq!(edge.checked_mul(dec(a)), edge.checked_mul(dec(b)));
        assert_eq!(dec(a).checked_mul(edge), dec(b).checked_mul(edge));
    }
    let most = Decimal::from_parts(79228162514264337593543950335, 0).unwrap();
    assert_eq!(most.checked_mul(dec("2")), None);
    assert_eq!(most.checked_mul(dec("2.000")), None);
}

#[test]
fn products_add_the_scales() {
    assert_eq!(pair(dec("0.018").checked_mul(dec("0.5")).unwrap()), (90, 4));
    assert_eq!(pair(dec("1.50").checked_mul(dec("2.00")).unwrap()), (30000, 4));
    assert_eq!(pair(dec("-0.5").checked_mul(dec("0.5")).unwrap()), (-25, 2));
}

#[test]
fn short_quotients_are_exact() {
    assert_eq!(dec("180").checked_div(dec("10000")).unwrap(), dec("0.018"));
    assert_eq!(dec("20").checked_div(dec("0.5")).unwrap(), dec("40"));
    assert_eq!(dec("0.575").checked_div(dec("0.01")).unwrap(), dec("57.5"));
    assert_eq!(dec("1").checked_div(dec("0.001")).unwrap(), dec("1000"));
    assert_eq!(
        dec("1844674407370.9551615").checked_div(dec("0.0000001")).unwrap(),
        dec("18446744073709551615")
    );
    assert_eq!(dec("1").checked_div(dec("3")).unwrap(), dec("0.3333333333333333333333333333"));
}

#[test]
fn basis_points_take_few_decimals() {
    for bps in [0u32, 1, 3, 7, 20, 180, 9999, 10000, 12345, u32::MAX, u32::MAX - 1, 4_000_000_001] {
        let d = Decimal::from_u32(bps).checked_div(dec("10000")).unwrap();
        assert!(d.scale() <= 9);
        assert_eq!(d.checked_mul(dec("10000")).unwrap(), Decimal::from_u32(bps));
    }
}

#[test]
fn overflow_gives_nothing() {
    let most = dec("79228162514264337593543950335");
    assert!(most.checked_add(dec("1")).is_none());
    assert!(most.negate().checked_sub(dec("1")).is_none());
    assert!(most.checked_mul(dec("2")).is_none());
    assert!(most.checked_div(dec("0.1")).is_none());
    assert!(most.checked_add(dec("0.4")).is_some());
}

#[test]
fn order_is_by_value() {
    assert!(dec("0.4") == dec("0.40"));
    assert!(dec("0.4") <= dec("0.40"));
    assert!(dec("0.39") < dec("0.4"));
    assert!(dec("-1") < dec("0"));
    assert!(dec("79228162514264337593543950335") > dec("7.9228162514264337593543950335"));
    for a in samples() {
        for b in samples() {
            assert_eq!(a.less_than(&b), outside(a) < outside(b));
            assert_eq!(a.same_as(&b), outside(a) == outside(b));
            assert_eq!(a.partial_cmp(&b), outside(a).partial_cmp(&outside(b)));
            assert_eq!(outside(a.min(b)), outside(a).min(outside(b)));
        }
        assert_eq!(a.is_positive(), outside(a) > rust_decimal::Decimal::ZERO);
    }
}

#[test]
fn the_smaller_of_two_equal_amounts_is_the_first() {
    assert_eq!(dec("0.40").min(dec("0.4")).scale(), 2);
    assert_eq!(dec("0.4").min(dec("0.40")).scale(), 1);
}

#[test]
fn floor_goes_down() {
    assert_eq!(pair(dec("57.5").floor()), (57, 0));
    assert_eq!(pair(dec("-0.5").floor()), (-1, 0));
    assert_eq!(pair(dec("-3.00").floor()), (-3, 0));
    assert_eq!(pair(dec("0.999").floor()), (0, 0));
    assert_eq!(pair(dec("-79228162514264337593543950335").floor()), (-79228162514264337593543950335, 0));
    for a in samples() {
        let f = outside(a).floor();
        assert_eq!(pair(a.floor()), (f.mantissa(), f.scale()));
    }
}

#[test]
fn texts_are_read_as_the_crate_reads_them() {
    let texts = [
        "0.4", " 0.4", "", "abc", "1e3", "+5", "-5", ".5", "5.", "1_000", "--1",
        "0.00000000000000000000000000001", "0.12345678901234567890123456789",
        "79228162514264337593543950336", "1,5", "\u{0661}",
    ];
    for t in texts {
        let wanted = rust_decimal::Decimal::from_str(t).ok().map(|d| (d.mantissa(), d.scale()));
        assert_eq!(Decimal::parse(t).map(pair), wanted);
        assert_eq!(pair(Decimal::parse_or_zero(t)), wanted.unwrap_or((0, 0)));
        let wanted =
            rust_decimal::Decimal::from_str_exact(t).ok().map(|d| (d.mantissa(), d.scale()));
        assert_eq!(Decimal::parse_exact(t).map(pair), wanted);
    }
    assert_eq!(Decimal::parse("0.40").map(pair), Some((40, 2)));
    assert!(Decimal::parse("0.00000000000000000000000000001").is_some());
    assert!(Decimal::parse_exact("0.00000000000000000000000000001").is_none());
}

#[test]
fn amounts_are_written_with_all_their_decimals() {
    assert_eq!(dec("0.40").to_text(), "0.40");
    assert_eq!(dec("-12.5").to_text(), "-12.5");
    assert_eq!(Decimal::new(3, 0).to_text(), "3");
}

#[test]
fn parts_are_within_the_format() {
    assert!(Decimal::from_parts(79228162514264337593543950335, 28).is_some());
    assert!(Decimal::from_parts(79228162514264337593543950336, 0).is_none());
    assert!(Decimal::from_parts(-79228162514264337593543950336, 0).is_none());
    assert!(Decimal::from_parts(1, 29).is_none());
    assert_eq!(pair(Decimal::from_parts(-5, 1).unwrap()), (-5, 1));
    assert_eq!(Decimal::one(), Decimal::new(10, 1));
    assert_eq!(Decimal::zero(), Decimal::new(0, 5));
}

#[test]
fn quotients_shift_decimals_and_round_to_the_last_digit() {
    let q = dec("12345.678").checked_div(dec("0.001")).unwrap();
    assert_eq!((q.mantissa(), q.scale()), (12345678, 0));
    let q = dec("7").checked_div(dec("0.01")).unwrap();
    assert_eq!((q.mantissa(), q.scale()), (700, 0));
    let q = dec("0.00").checked_div(dec("3")).unwrap();
    assert_eq!((q.mantissa(), q.scale()), (0, 0));
    assert!(dec("79228162514264337593543950335").checked_div(dec("0.1")).is_none());
    for k in [0u32, 1, 20, 180, 12340, 10000, 99990, u32::MAX] {
        assert!(Decimal::from_u32(k).checked_div(dec("10000")).unwrap().scale() <= 4);
    }
    let shares = dec("50").checked_div(dec("0.6")).unwrap();
    assert_eq!(shares, dec("83.33333333333333333333333333"));
    let spent = shares.checked_mul(dec("0.6")).unwrap();
    assert_eq!(spent, dec("49.999999999999999999999999998"));
}
