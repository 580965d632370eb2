//! Taker fees.
//!
//! A taker pays `shares * price * rate`, where the rate is
//! `(base_rate_bps / 10000) * price * (1 - price)`: nothing at either end of the
//! price range, most in the middle.

use crate::decimal::{
    Decimal, Num, aligned_sum, aligns, common_scale, decimal_difference, decimal_option,
    decimal_product, decimal_quotient, fits, is_quotient,
    lemma_pow10_28, lemma_pow10_adds, lemma_pow10_positive, lemma_units_aligned_sum,
    lemma_units_product, lemma_units_sign, lemma_units_whole, negated, odifference, one_unit,
    oproduct, oquotient, pow10, product_facts, sum_facts, units, whole, whole_num,
};
use vstd::prelude::*;

verus! {

/// `price` is strictly between zero and one.
pub open spec fn inside_unit(price: Num) -> bool {
    0 < units(price) < one_unit()
}

/// A number of basis points as a fraction.
pub open spec fn bps_fraction(bps: int) -> Option<Num> {
    oquotient(Some(whole_num(bps)), Some(whole_num(10000)))
}

/// The fee rate at `price`.
pub open spec fn fee_rate(price: Num, base_rate_bps: int) -> Option<Num> {
    if inside_unit(price) {
        oproduct(
            oproduct(bps_fraction(base_rate_bps), Some(price)),
            odifference(Some(whole_num(1)), Some(price)),
        )
    } else {
        Some(whole_num(0))
    }
}

/// The fee on one share bought at `price`.
pub open spec fn fee_per_share(price: Num, base_rate_bps: int) -> Option<Num> {
    if inside_unit(price) {
        oproduct(Some(price), fee_rate(price, base_rate_bps))
    } else {
        Some(whole_num(0))
    }
}

/// `price` has so few decimals that the fee rate at it needs no rounding.
pub open spec fn rate_is_exact(price: Num, base_rate_bps: int) -> bool {
    &&& 4 + 2 * price.scale <= 28
    &&& fits(base_rate_bps, 2 * price.scale)
}

/// `rate` is exactly `base_rate_bps / 10000 * price * (1 - price)`.
pub open spec fn is_exact_rate(price: Num, base_rate_bps: int, rate: Num) -> bool {
    units(rate) * (10000 * one_unit()) == base_rate_bps * (units(price) * (one_unit() - units(
        price,
    )))
}

/// An exact fee rate takes no more digits than these.
pub open spec fn rate_digits(price: Num, base_rate_bps: int, rate: Num) -> bool {
    &&& 0 <= rate.scale <= 4 + 2 * price.scale
    &&& 0 <= rate.mant <= base_rate_bps * pow10(2 * price.scale)
}

/// `price` has so few decimals that the fee on a share needs no rounding.
pub open spec fn fee_needs_no_rounding(price: Num, base_rate_bps: int) -> bool {
    &&& 4 + 3 * price.scale <= 28
    &&& fits(base_rate_bps, 3 * price.scale)
}

/// `fee` is exactly `base_rate_bps / 10000 * price^2 * (1 - price)`.
pub open spec fn is_exact_fee(price: Num, base_rate_bps: int, fee: Num) -> bool {
    units(fee) * (10000 * one_unit() * one_unit()) == base_rate_bps * (units(price) * (units(price)
        * (one_unit() - units(price))))
}

/// A bound on the fee rate, and on the fee on a share, in whole dollars.
pub open spec fn fee_ceiling(base_rate_bps: int) -> int {
    if base_rate_bps <= 20000 {
        2
    } else {
        429497
    }
}

/// A number of basis points as a fraction: exact, with at most four decimals.
pub(crate) fn fraction_of_bps(bps: u32) -> (r: Decimal)
    ensures
        bps_fraction(bps as int) == Some(r@),
        units(r@) * 10000 == whole(bps as int),
        0 <= units(r@) <= whole(429497),
        0 <= r@.scale <= 4,
{
    let over = Decimal::new(10000, 0);
    let top = Decimal::from_u32(bps);
    let found = top.checked_div(over);
    proof {
        let n = Num { mant: bps as int, scale: 4 };
        lemma_pow10_28();
        reveal_with_fuel(pow10, 30);
        assert(is_quotient(whole_num(bps as int), whole_num(10000), n)) by {
            assert(bps as int * pow10(28) * pow10(4) == bps as int * (10000 * pow10(28)))
                by (nonlinear_arith)
                requires
                    pow10(4) == 10000,
            ;
        }
        assert(units(n) == bps as int * pow10(24));
        assert(pow10(24) * 10000 == one_unit());
        assert(bps as int * pow10(24) * 10000 == bps as int * one_unit()) by (nonlinear_arith)
            requires
                pow10(24) * 10000 == one_unit(),
        ;
    }
    let r = found.unwrap();
    proof {
        use_type_invariant(&r);
    }
    r
}

/// The product of two amounts from zero up to a whole bound, the second at most
/// one, is in the bound of the first.
pub(crate) fn scale_down(a: Decimal, b: Decimal, Ghost(k): Ghost<int>) -> (r: Decimal)
    requires
        0 <= k <= 1_000_000,
        0 <= units(a@) <= whole(k),
        0 <= units(b@) <= one_unit(),
    ensures
        oproduct(Some(a@), Some(b@)) == Some(r@),
        0 <= units(r@) <= whole(k),
        product_facts(a@, b@, Some(r@)),
{
    let found = a.checked_mul(b);
    proof {
        let (ua, ub) = (units(a@), units(b@));
        assert(0 <= ua * ub <= whole(k) * one_unit()) by (nonlinear_arith)
            requires
                0 <= ua <= whole(k),
                0 <= ub <= one_unit(),
        ;
        assert(whole(0) == 0);
        assert(one_unit() * whole(k) == whole(k) * one_unit()) by (nonlinear_arith);
    }
    found.unwrap()
}

/// `1 - price`, for a price up to one.
pub(crate) fn complement(price: Decimal) -> (r: Decimal)
    requires
        0 <= units(price@) <= one_unit(),
    ensures
        odifference(Some(whole_num(1)), Some(price@)) == Some(r@),
        0 <= units(r@) <= one_unit(),
        sum_facts(whole_num(1), negated(price@), Some(r@)),
{
    let found = Decimal::one().checked_sub(price);
    proof {
        lemma_units_whole(1);
        lemma_units_negated(price@);
        assert(whole(0) == 0);
        assert(whole(1) == one_unit());
    }
    found.unwrap()
}

pub(crate) proof fn lemma_units_negated(n: Num)
    ensures
        units(negated(n)) == -units(n),
{
    assert((-n.mant) * pow10(28 - n.scale) == -(n.mant * pow10(28 - n.scale))) by (nonlinear_arith);
}

/// The effective fee rate at `price`, as a fraction of the notional.
pub fn fee_rate_for_price(price: Decimal, base_rate_bps: u32) -> (r: Decimal)
    ensures
        fee_rate(price@, base_rate_bps as int) == Some(r@),
        0 <= units(r@) <= whole(fee_ceiling(base_rate_bps as int)),
        !inside_unit(price@) ==> units(r@) == 0,
        inside_unit(price@) && rate_is_exact(price@, base_rate_bps as int) ==> is_exact_rate(
            price@,
            base_rate_bps as int,
            r@,
        ) && rate_digits(price@, base_rate_bps as int, r@),
        0 < units(price@) < one_unit() && 0 <= price@.scale <= 12 && base_rate_bps <= 10000
            ==> units(r@) * (10000 * one_unit()) == base_rate_bps * (units(price@) * (one_unit()
            - units(price@))),
{
    proof {
        if 0 <= price@.scale && base_rate_bps <= 10000 {
            few_decimals_need_no_rounding(price@, base_rate_bps as int);
        }
    }
    let zero = Decimal::zero();
    let one = Decimal::one();
    proof {
        lemma_units_whole(0);
        lemma_units_whole(1);
    }
    if price <= zero || price >= one {
        return zero;
    }
    let base = fraction_of_bps(base_rate_bps);
    let ghost top = fee_ceiling(base_rate_bps as int);
    let scaled = scale_down(base, price, Ghost(top));
    let rest = complement(price);
    let rate = scale_down(scaled, rest, Ghost(top));
    proof {
        use_type_invariant(&price);
        if rate_is_exact(price@, base_rate_bps as int) {
            lemma_rate_exact(price@, base_rate_bps as int, base@, scaled@, rest@, rate@);
        }
    }
    rate
}

/// The fee in USDC on one share bought at `price`.
pub fn effective_fee_per_share(price: Decimal, base_rate_bps: u32) -> (r: Decimal)
    ensures
        fee_per_share(price@, base_rate_bps as int) == Some(r@),
        0 <= units(r@) <= whole(fee_ceiling(base_rate_bps as int)),
        !inside_unit(price@) ==> units(r@) == 0,
        inside_unit(price@) && fee_needs_no_rounding(price@, base_rate_bps as int) ==> {
            let rate = fee_rate(price@, base_rate_bps as int)->0;
            &&& is_exact_rate(price@, base_rate_bps as int, rate)
            &&& is_exact_fee(price@, base_rate_bps as int, r@)
            &&& units(r@) * one_unit() == units(price@) * units(rate)
        },
        0 < units(price@) < one_unit() && 0 <= price@.scale <= 8 && base_rate_bps <= 10000
            ==> units(r@) * (10000 * one_unit() * one_unit()) == base_rate_bps * (units(price@) * (
        units(price@) * (one_unit() - units(price@)))),
{
    proof {
        if 0 <= price@.scale && base_rate_bps <= 10000 {
            few_decimals_need_no_rounding(price@, base_rate_bps as int);
        }
    }
    let zero = Decimal::zero();
    let one = Decimal::one();
    proof {
        lemma_units_whole(0);
        lemma_units_whole(1);
    }
    if price <= zero || price >= one {
        return zero;
    }
    let rate = fee_rate_for_price(price, base_rate_bps);
    let found = price.checked_mul(rate);
    proof {
        let (ua, ub) = (units(price@), units(rate@));
        let top = whole(fee_ceiling(base_rate_bps as int));
        assert(0 <= ua * ub <= one_unit() * top) by (nonlinear_arith)
            requires
                0 <= ua <= one_unit(),
                0 <= ub <= top,
        ;
        assert(whole(0) == 0);
        use_type_invariant(&price);
        use_type_invariant(&rate);
        if fee_needs_no_rounding(price@, base_rate_bps as int) {
            lemma_fee_exact(price@, base_rate_bps as int, rate@, decimal_option(found)->0);
            lemma_rate_fits(price@, base_rate_bps as int);
            fee_is_price_times_rate(
                price@,
                base_rate_bps as int,
                rate@,
                decimal_option(found)->0,
            );
        }
    }
    found.unwrap()
}

/// A bound on the digits of a fee bounds those of the rate in it.
proof fn lemma_rate_fits(price: Num, bps: int)
    requires
        0 <= price.scale,
        0 <= bps,
        fee_needs_no_rounding(price, bps),
    ensures
        rate_is_exact(price, bps),
{
    let s = price.scale;
    lemma_pow10_adds(2 * s, s);
    lemma_pow10_positive(s);
    lemma_pow10_positive(2 * s);
    assert(0 <= bps * pow10(2 * s) <= bps * (pow10(2 * s) * pow10(s))) by (nonlinear_arith)
        requires
            0 <= bps,
            1 <= pow10(2 * s),
            1 <= pow10(s),
    ;
}

proof fn lemma_fee_exact(price: Num, bps: int, rate: Num, fee: Num)
    requires
        inside_unit(price),
        0 <= price.scale <= 28,
        0 <= bps <= u32::MAX,
        fee_needs_no_rounding(price, bps),
        rate_is_exact(price, bps) ==> is_exact_rate(price, bps, rate) && rate_digits(
            price,
            bps,
            rate,
        ),
        product_facts(price, rate, Some(fee)),
    ensures
        is_exact_fee(price, bps, fee),
{
    let s = price.scale;
    let u = one_unit();
    lemma_rate_fits(price, bps);
    lemma_pow10_28();
    lemma_units_sign(price);
    lemma_units_sign(rate);
    lemma_units_whole(0);
    assert(whole(0) == 0);
    let ps = pow10(s);
    let pr = pow10(28 - s);
    lemma_pow10_adds(s, 28 - s);
    lemma_pow10_positive(28 - s);
    lemma_pow10_positive(s);
    assert(0 < price.mant < ps) by (nonlinear_arith)
        requires
            0 < price.mant * pr < u,
            ps * pr == u,
            pr >= 1,
    ;
    let (up, ur, uf) = (units(price), units(rate), units(fee));
    if rate.mant != 0 {
        let bound = bps * pow10(2 * s);
        lemma_pow10_adds(2 * s, s);
        let m = price.mant * rate.mant;
        assert(0 < m <= bps * (pow10(2 * s) * ps)) by (nonlinear_arith)
            requires
                0 < price.mant < ps,
                0 < rate.mant <= bound,
                bound == bps * pow10(2 * s),
                m == price.mant * rate.mant,
        ;
        assert(m * pow10(0) == m);
        assert(fits(m, 0));
        assert(fee == (Num { mant: m, scale: s + rate.scale }));
        lemma_units_product(price, rate);
    } else {
        assert(fee == whole_num(0));
        assert(up * 0 == 0) by (nonlinear_arith);
    }
    let x = up * (u - up);
    assert(uf * (10000 * u * u) == bps * (up * x)) by (nonlinear_arith)
        requires
            u * uf == up * ur,
            ur * (10000 * u) == bps * x,
    {
        assert(uf * (10000 * u * u) == (u * uf) * (10000 * u));
        assert((up * ur) * (10000 * u) == up * (ur * (10000 * u)));
        assert(up * (bps * x) == bps * (up * x));
    }
}

proof fn lemma_rate_exact(
    price: Num,
    bps: int,
    base: Num,
    scaled: Num,
    rest: Num,
    rate: Num,
)
    requires
        inside_unit(price),
        0 <= price.scale <= 28,
        rate_is_exact(price, bps),
        0 <= bps <= u32::MAX,
        units(base) * 10000 == whole(bps),
        0 <= base.scale <= 4,
        product_facts(base, price, Some(scaled)),
        sum_facts(whole_num(1), negated(price), Some(rest)),
        product_facts(scaled, rest, Some(rate)),
    ensures
        is_exact_rate(price, bps, rate),
        rate_digits(price, bps, rate),
{
    let s = price.scale;
    let u = one_unit();
    lemma_pow10_28();
    lemma_units_sign(price);
    lemma_units_sign(base);
    lemma_units_whole(0);
    assert(whole(0) == 0);
    assert(whole(bps) == bps * u);
    // The price is below one, so its mantissa is below 10^s.
    let ps = pow10(s);
    let pr = pow10(28 - s);
    lemma_pow10_adds(s, 28 - s);
    lemma_pow10_positive(28 - s);
    lemma_pow10_positive(s);
    assert(0 < price.mant < ps) by (nonlinear_arith)
        requires
            0 < price.mant * pr < u,
            ps * pr == u,
            pr >= 1,
    ;
    // One less the price.
    assert(negated(price).mant != 0);
    let one = whole_num(1);
    assert(common_scale(one, negated(price)) == s);
    assert(1 * pow10(s) == pow10(s));
    assert((-price.mant) * pow10(0) == -price.mant);
    assert(aligned_sum(one, negated(price)) == (Num { mant: ps - price.mant, scale: s }));
    lemma_pow10_bound(s);
    assert(fits(1, s));
    assert(fits(-price.mant, 0));
    assert((ps - price.mant) * pow10(0) == ps - price.mant);
    assert(aligns(one, negated(price)));
    assert(rest == (Num { mant: ps - price.mant, scale: s }));
    lemma_units_aligned_sum(one, negated(price));
    lemma_units_whole(1);
    lemma_units_negated(price);
    assert(units(rest) == u - units(price));
    if bps == 0 {
        assert(units(base) == 0);
        assert(base.mant == 0);
        assert(scaled == whole_num(0));
        assert(rate == whole_num(0));
        assert(units(rate) == 0);
        assert(0 * (10000 * u) == 0);
        assert(0 * (units(price) * (u - units(price))) == 0);
        assert(0 * pow10(2 * s) == 0);
    } else {
        // The base has at most bps as its mantissa.
        let sb = base.scale;
        let pb = pow10(28 - sb);
        assert(units(base) > 0) by (nonlinear_arith)
            requires
                units(base) * 10000 == bps * u,
                bps > 0,
                u > 0,
        ;
        assert(base.mant > 0);
        lemma_pow10_adds(24, 4 - sb);
        lemma_pow10_positive(4 - sb);
        reveal_with_fuel(pow10, 30);
        assert(pb >= pow10(24)) by (nonlinear_arith)
            requires
                pb == pow10(24) * pow10(4 - sb),
                pow10(4 - sb) >= 1,
                pow10(24) >= 1,
        ;
        assert(base.mant <= bps) by (nonlinear_arith)
            requires
                base.mant * pb * 10000 == bps * u,
                pb >= 1000000000000000000000000,
                u == 10000000000000000000000000000,
                base.mant > 0,
        ;
        // The mantissas of both products fit.
        let bound = bps * pow10(2 * s);
        lemma_pow10_adds(s, s);
        assert(bound == bps * (ps * ps));
        assert(0 < base.mant * price.mant <= bps * ps) by (nonlinear_arith)
            requires
                0 < base.mant <= bps,
                0 < price.mant < ps,
        ;
        let m1 = base.mant * price.mant;
        assert(bps * ps <= bound) by (nonlinear_arith)
            requires
                bound == bps * (ps * ps),
                ps >= 1,
                bps >= 0,
        ;
        assert(m1 * pow10(0) == m1);
        assert(fits(m1, 0));
        assert(scaled == (Num { mant: m1, scale: sb + s }));
        let m2 = m1 * rest.mant;
        assert(0 < m2 <= bound) by (nonlinear_arith)
            requires
                0 < m1 <= bps * ps,
                0 < rest.mant <= ps,
                bound == bps * (ps * ps),
                m2 == m1 * rest.mant,
        ;
        assert(m2 * pow10(0) == m2);
        assert(fits(m2, 0));
        assert(rate == (Num { mant: m2, scale: sb + s + s }));
        lemma_units_product(base, price);
        lemma_units_product(scaled, rest);
        let (ub, up, us, ur, ux) = (
            units(base),
            units(price),
            units(scaled),
            units(rest),
            units(rate),
        );
        assert(ux * (10000 * u) == bps * (up * ur)) by (nonlinear_arith)
            requires
                u * us == ub * up,
                u * ux == us * ur,
                ub * 10000 == bps * u,
                u > 0,
        {
            assert(u * (ux * (10000 * u)) == us * ur * (10000 * u));
            assert(us * ur * (10000 * u) == 10000 * ur * (u * us));
            assert(10000 * ur * (ub * up) == ur * up * (ub * 10000));
            assert(ur * up * (bps * u) == u * (bps * (up * ur)));
        }
    }
}

proof fn lemma_pow10_bound(s: int)
    requires
        0 <= s <= 28,
    ensures
        1 <= pow10(s) <= one_unit(),
{
    lemma_pow10_28();
    lemma_pow10_adds(s, 28 - s);
    lemma_pow10_positive(s);
    lemma_pow10_positive(28 - s);
    assert(pow10(s) <= pow10(s) * pow10(28 - s)) by (nonlinear_arith)
        requires
            pow10(s) >= 1,
            pow10(28 - s) >= 1,
    ;
}

/// Law: at prices that add up to one, exact fee rates are the same.
pub proof fn rate_is_symmetric(
    price: Num,
    other: Num,
    base_rate_bps: int,
    rate: Num,
    other_rate: Num,
)
    requires
        units(price) + units(other) == one_unit(),
        is_exact_rate(price, base_rate_bps, rate),
        is_exact_rate(other, base_rate_bps, other_rate),
    ensures
        units(rate) == units(other_rate),
{
    let (p, q, u) = (units(price), units(other), one_unit());
    assert(p * (u - p) == q * (u - q)) by (nonlinear_arith)
        requires
            p + q == u,
    ;
    assert(units(rate) == units(other_rate)) by (nonlinear_arith)
        requires
            units(rate) * (10000 * u) == units(other_rate) * (10000 * u),
            u > 0,
    ;
}

/// Law: no exact fee rate is above the one at a price of one half.
pub proof fn rate_is_greatest_at_half(
    price: Num,
    half: Num,
    base_rate_bps: int,
    rate: Num,
    half_rate: Num,
)
    requires
        0 <= base_rate_bps,
        2 * units(half) == one_unit(),
        is_exact_rate(price, base_rate_bps, rate),
        is_exact_rate(half, base_rate_bps, half_rate),
    ensures
        units(rate) <= units(half_rate),
{
    let (p, h, u) = (units(price), units(half), one_unit());
    assert(p * (u - p) <= h * (u - h)) by (nonlinear_arith)
        requires
            2 * h == u,
    {
        assert((h - p) * (h - p) >= 0);
        assert(h * (u - h) - p * (u - p) == (h - p) * (h - p));
    }
    assert(base_rate_bps * (p * (u - p)) <= base_rate_bps * (h * (u - h))) by (nonlinear_arith)
        requires
            0 <= base_rate_bps,
            p * (u - p) <= h * (u - h),
    ;
    assert(units(rate) <= units(half_rate)) by (nonlinear_arith)
        requires
            units(rate) * (10000 * u) <= units(half_rate) * (10000 * u),
            u > 0,
    ;
}

/// Law: a fee rate of up to a hundred percent is exact at every price of up to
/// twelve decimals, and the fee on a share at every price of up to eight.
pub proof fn few_decimals_need_no_rounding(price: Num, base_rate_bps: int)
    requires
        0 <= price.scale,
        0 <= base_rate_bps <= 10000,
    ensures
        price.scale <= 12 ==> rate_is_exact(price, base_rate_bps),
        price.scale <= 8 ==> fee_needs_no_rounding(price, base_rate_bps),
{
    let s = price.scale;
    reveal_with_fuel(pow10, 30);
    lemma_pow10_28();
    if s <= 12 {
        lemma_scaled_bps_fits(base_rate_bps, 2 * s);
    }
    if s <= 8 {
        lemma_scaled_bps_fits(base_rate_bps, 3 * s);
    }
}

proof fn lemma_scaled_bps_fits(bps: int, by: int)
    requires
        0 <= bps <= 10000,
        0 <= by <= 24,
    ensures
        fits(bps, by),
{
    lemma_pow10_adds(by, 24 - by);
    lemma_pow10_positive(by);
    lemma_pow10_positive(24 - by);
    reveal_with_fuel(pow10, 30);
    assert(0 <= bps * pow10(by) <= 10000 * 1000000000000000000000000) by (nonlinear_arith)
        requires
            0 <= bps <= 10000,
            1 <= pow10(by),
            1 <= pow10(24 - by),
            pow10(by) * pow10(24 - by) == 1000000000000000000000000,
    ;
}

/// Law: an exact fee on a share is its price times the exact rate.
pub proof fn fee_is_price_times_rate(price: Num, base_rate_bps: int, rate: Num, fee: Num)
    requires
        is_exact_rate(price, base_rate_bps, rate),
        is_exact_fee(price, base_rate_bps, fee),
    ensures
        units(fee) * one_unit() == units(price) * units(rate),
{
    let (p, r, f, u) = (units(price), units(rate), units(fee), one_unit());
    assert(f * u == p * r) by (nonlinear_arith)
        requires
            r * (10000 * u) == base_rate_bps * (p * (u - p)),
            f * (10000 * u * u) == base_rate_bps * (p * (p * (u - p))),
            u > 0,
    {
        assert(base_rate_bps * (p * (p * (u - p))) == p * (base_rate_bps * (p * (u - p))));
        assert((f * u) * (10000 * u) == (p * r) * (10000 * u));
    }
}

/// Law: at prices that add up to one, the exact fees on a share of each add up to
/// the exact rate.
pub proof fn fees_of_both_outcomes_make_the_rate(
    price: Num,
    other: Num,
    base_rate_bps: int,
    rate: Num,
    fee: Num,
    other_fee: Num,
)
    requires
        units(price) + units(other) == one_unit(),
        is_exact_rate(price, base_rate_bps, rate),
        is_exact_fee(price, base_rate_bps, fee),
        is_exact_fee(other, base_rate_bps, other_fee),
    ensures
        units(fee) + units(other_fee) == units(rate),
{
    let (p, q, u) = (units(price), units(other), one_unit());
    let (r, f, g) = (units(rate), units(fee), units(other_fee));
    assert(f + g == r) by (nonlinear_arith)
        requires
            p + q == u,
            r * (10000 * u) == base_rate_bps * (p * (u - p)),
            f * (10000 * u * u) == base_rate_bps * (p * (p * (u - p))),
            g * (10000 * u * u) == base_rate_bps * (q * (q * (u - q))),
            u > 0,
    {
        let k = base_rate_bps * (p * q);
        assert(u - p == q && u - q == p);
        assert(base_rate_bps * (p * (p * q)) == p * k);
        assert(base_rate_bps * (q * (q * p)) == q * k);
        assert(p * k + q * k == u * k);
        assert((f + g) * (10000 * u * u) == u * k);
        assert(u * k == (r * u) * (10000 * u));
        assert((f + g) * (10000 * u * u) == r * (10000 * u * u));
    }
}

/// Law: the fee rate is worked out from the basis points over ten thousand, the price and
/// what the price lacks to one, in this order; the fee on a share is the price times the
/// rate. At a price of nothing or less and of one or more there is neither.
pub proof fn rate_goes_by_the_price_and_its_rest(price: Num, base_rate_bps: int)
    ensures
        ({
            let inside = 0 < units(price) && units(price) < one_unit();
            let fraction = decimal_quotient(
                Num { mant: base_rate_bps, scale: 0 },
                Num { mant: 10000, scale: 0 },
            );
            let scaled = decimal_product(fraction->0, price);
            let rest = decimal_difference(Num { mant: 1, scale: 0 }, price);
            let rate = decimal_product(scaled->0, rest->0);
            let fee = decimal_product(price, rate->0);
            &&& !inside ==> fee_rate(price, base_rate_bps) == Some(Num { mant: 0, scale: 0 })
                && fee_per_share(price, base_rate_bps) == Some(Num { mant: 0, scale: 0 })
            &&& inside && fraction is Some && scaled is Some && rest is Some ==> fee_rate(
                price,
                base_rate_bps,
            ) == rate
            &&& inside && fraction is Some && scaled is Some && rest is Some && rate is Some
                ==> fee_per_share(price, base_rate_bps) == fee
            &&& inside && (fraction is None || scaled is None || rest is None) ==> fee_rate(
                price,
                base_rate_bps,
            ) is None
        }),
{
}

} // verus!
