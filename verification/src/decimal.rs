//! Exact decimal amounts: prices, sizes, fees and profits.
//!
//! A [`Decimal`] is an integer mantissa over a power of ten. Its arithmetic is
//! that of the `rust_decimal` crate, reached through the private functions at
//! the end of this file. Contracts speak of the pair itself ([`Num`]) where the
//! crate decides how a result is written, and of the value in units of `10^-28`
//! ([`units`]) where only the amount matters. The value of every result is the exact
//! one, rounded half to even to the most decimals that fit ([`fitted`]).

use vstd::prelude::*;

use core::cmp::Ordering;

verus! {

/// The number `mant / 10^scale`.
pub struct Num {
    pub mant: int,
    pub scale: int,
}

/// Ten to the power `n`.
pub open spec fn pow10(n: int) -> int
    decreases n,
{
    if n <= 0 {
        1
    } else {
        10 * pow10(n - 1)
    }
}

/// The largest mantissa, `2^96 - 1`.
pub open spec fn max_mant() -> int {
    79228162514264337593543950335
}

/// The number one in units of `10^-28`.
pub open spec fn one_unit() -> int {
    10000000000000000000000000000
}

/// The whole number `k` in units of `10^-28`.
pub open spec fn whole(k: int) -> int {
    k * one_unit()
}

/// `n` fits the mantissa and the scale of a [`Decimal`].
pub open spec fn representable(n: Num) -> bool {
    &&& -max_mant() <= n.mant <= max_mant()
    &&& 0 <= n.scale <= 28
}

/// The value of `n` in units of `10^-28`.
pub open spec fn units(n: Num) -> int {
    n.mant * pow10(28 - n.scale)
}

/// The whole number `k` with no decimals.
pub open spec fn whole_num(k: int) -> Num {
    Num { mant: k, scale: 0 }
}

/// The smaller of two numbers, the first where they are equal.
pub open spec fn num_min(a: Num, b: Num) -> Num {
    if units(a) > units(b) {
        b
    } else {
        a
    }
}

/// The largest whole number not above `n`.
pub open spec fn num_floor(n: Num) -> Num {
    whole_num(n.mant / pow10(n.scale))
}

/// `r` rounds `exact / denom`, both in units of `10^-28`, without crossing a
/// whole number.
pub open spec fn rounds(exact: int, denom: int, r: Num) -> bool {
    forall|k: int|
        -max_mant() <= k <= max_mant() ==> {
            &&& exact <= denom * #[trigger] whole(k) ==> units(r) <= whole(k)
            &&& exact >= denom * whole(k) ==> units(r) >= whole(k)
        }
}

/// The absolute value of `x`.
pub open spec fn magnitude(x: int) -> int {
    if x >= 0 {
        x
    } else {
        -x
    }
}

/// One unit, or one part in `10^28` of `r` where `r` is above one; here times
/// `10^28`.
pub open spec fn grain(r: Num) -> int {
    if magnitude(units(r)) > one_unit() {
        magnitude(units(r))
    } else {
        one_unit()
    }
}

/// `r` is off the product of `a` and `b` by no more than a [`grain`].
pub open spec fn close_to_product(a: Num, b: Num, r: Num) -> bool {
    magnitude(units(a) * units(b) - units(r) * one_unit()) <= grain(r)
}

/// `r` is off the quotient of `a` and `b` by no more than a [`grain`].
pub open spec fn close_to_quotient(a: Num, b: Num, r: Num) -> bool {
    one_unit() * magnitude(units(a) * one_unit() - units(r) * units(b)) <= magnitude(units(b))
        * grain(r)
}

/// `mant` scaled up by `10^by` still fits a mantissa.
pub open spec fn fits(mant: int, by: int) -> bool {
    -max_mant() <= mant * pow10(by) <= max_mant()
}

/// The number with the opposite sign.
pub open spec fn negated(n: Num) -> Num {
    Num { mant: -n.mant, scale: n.scale }
}

/// The larger of the scales of two numbers.
pub open spec fn common_scale(a: Num, b: Num) -> int {
    if a.scale >= b.scale {
        a.scale
    } else {
        b.scale
    }
}

/// The sum of two numbers, written with the larger of their scales.
pub open spec fn aligned_sum(a: Num, b: Num) -> Num {
    let scale = common_scale(a, b);
    Num {
        mant: a.mant * pow10(scale - a.scale) + b.mant * pow10(scale - b.scale),
        scale,
    }
}

/// Both numbers, and their sum, fit a mantissa at the larger of their scales.
pub open spec fn aligns(a: Num, b: Num) -> bool {
    let scale = common_scale(a, b);
    &&& fits(a.mant, scale - a.scale)
    &&& fits(b.mant, scale - b.scale)
    &&& fits(aligned_sum(a, b).mant, 0)
}

/// `x / d` rounded to the nearest whole number, to the even one where two are as near.
pub open spec fn half_even(x: int, d: int) -> int {
    let (q, rest) = (x / d, x % d);
    if 2 * rest < d || (2 * rest == d && q % 2 == 0) {
        q
    } else {
        q + 1
    }
}

/// `x / d` rounded half to even to the most decimals, but no more than `scale`, with
/// which it fits a mantissa; in units of `10^-28`. Nothing where it does not fit without
/// decimals.
pub open spec fn fitted(x: int, d: int, scale: int) -> Option<int>
    decreases scale,
{
    let mant = half_even(x * pow10(scale), d);
    if mant <= max_mant() {
        Some(mant * pow10(28 - scale))
    } else if scale <= 0 {
        None
    } else {
        fitted(x, d, scale - 1)
    }
}

/// `r` has the value `x / d`, rounded half to even to the most decimals that fit; there
/// is none where it does not fit without decimals.
pub open spec fn has_value(x: int, d: int, r: Option<Num>) -> bool {
    let found = fitted(magnitude(x), magnitude(d), 28);
    match r {
        Some(n) => {
            &&& representable(n)
            &&& found == Some(magnitude(units(n)))
            &&& (x >= 0) == (d >= 0) || x == 0 ==> units(n) >= 0
            &&& (x >= 0) != (d >= 0) || x == 0 ==> units(n) <= 0
        },
        None => found is None,
    }
}

/// `r` is the sum of `a` and `b`: it has the exact value as far as that fits. A zero
/// leaves the other term as it is written, and where the sum can be written with the
/// larger scale, it is.
pub open spec fn is_sum(a: Num, b: Num, r: Option<Num>) -> bool {
    &&& has_value(units(a) + units(b), one_unit(), r)
    &&& a.mant == 0 ==> r == Some(b)
    &&& a.mant != 0 && b.mant == 0 ==> r == Some(a)
    &&& a.mant != 0 && b.mant != 0 && aligns(a, b) ==> r == Some(aligned_sum(a, b))
}

/// What a sum comes to: there is one where the exact sum is in range, and rounding
/// never crosses a whole number.
pub open spec fn sum_facts(a: Num, b: Num, r: Option<Num>) -> bool {
    let exact = units(a) + units(b);
    &&& is_sum(a, b, r)
    &&& -whole(max_mant()) <= exact <= whole(max_mant()) ==> r is Some
    &&& r matches Some(n) ==> rounds(exact, 1, n)
}

/// `r` is the product of `a` and `b`: it has the exact value as far as that fits. A zero
/// makes it a zero without decimals, and where its digits fit the mantissa and its
/// decimals the scale, it is written with all of them.
pub open spec fn is_product(a: Num, b: Num, r: Option<Num>) -> bool {
    &&& has_value(units(a) * units(b), one_unit() * one_unit(), r)
    &&& a.mant == 0 || b.mant == 0 ==> r == Some(whole_num(0))
    &&& a.mant != 0 && b.mant != 0 && a.scale + b.scale <= 28 && fits(a.mant * b.mant, 0) ==> r
        == Some(Num { mant: a.mant * b.mant, scale: a.scale + b.scale })
}

/// What a product comes to: there is one where the exact product is in range, and
/// rounding never crosses a whole number and never goes further than a [`grain`].
pub open spec fn product_facts(a: Num, b: Num, r: Option<Num>) -> bool {
    let exact = units(a) * units(b);
    let limit = one_unit() * whole(max_mant());
    &&& is_product(a, b, r)
    &&& -limit <= exact <= limit ==> r is Some
    &&& r matches Some(n) ==> rounds(exact, one_unit(), n) && close_to_product(a, b, n)
}

/// `n` is exactly `a / b`.
pub open spec fn is_quotient(a: Num, b: Num, n: Num) -> bool {
    units(a) * pow10(n.scale) == n.mant * units(b)
}

/// `a` over `10^-scale`: its decimals are as many fewer.
pub open spec fn shifted(a: Num, scale: int) -> Num {
    if a.scale >= scale {
        Num { mant: a.mant, scale: a.scale - scale }
    } else {
        Num { mant: a.mant * pow10(scale - a.scale), scale: 0 }
    }
}

/// `r` is the quotient of `a` and `b`, and there is none by zero: it has the exact value
/// as far as that fits. A zero makes it a zero without decimals; by a divisor of
/// mantissa one the decimals are shifted; a whole number of at most 32 bits over a whole
/// divisor of `10^4` takes at most four decimals.
pub open spec fn is_quotient_of(a: Num, b: Num, r: Option<Num>) -> bool {
    &&& b.mant == 0 ==> r is None
    &&& b.mant != 0 ==> has_value(units(a), units(b), r)
    &&& a.mant == 0 && b.mant != 0 ==> r == Some(whole_num(0))
    &&& a.mant != 0 && b.mant == 1 ==> r == (if representable(shifted(a, b.scale)) {
        Some(shifted(a, b.scale))
    } else {
        None
    })
    &&& a.scale == 0 && b.scale == 0 && 0 <= a.mant < 0x1_0000_0000 && 0 < b.mant
        && 10_000int % b.mant == 0 ==> r is Some && r->0.scale <= 4
}

/// What a quotient comes to: rounding never goes further than a [`grain`], and a
/// quotient that fits is found exactly.
pub open spec fn quotient_facts(a: Num, b: Num, r: Option<Num>) -> bool {
    &&& is_quotient_of(a, b, r)
    &&& r matches Some(n) ==> close_to_quotient(a, b, n)
    &&& forall|n: Num|
        b.mant != 0 && representable(n) && #[trigger] is_quotient(a, b, n) ==> r is Some && units(
            r->0,
        ) == units(n)
}

/// `a + b`, as `rust_decimal` rounds it; `None` where it overflows.
pub uninterp spec fn decimal_sum(a: Num, b: Num) -> Option<Num>;

/// `a - b`, as `rust_decimal` rounds it; `None` where it overflows.
pub uninterp spec fn decimal_difference(a: Num, b: Num) -> Option<Num>;

/// `a * b`, as `rust_decimal` rounds it; `None` where it overflows.
pub uninterp spec fn decimal_product(a: Num, b: Num) -> Option<Num>;

/// `a / b`, as `rust_decimal` rounds it; `None` where it overflows or `b` is zero.
pub uninterp spec fn decimal_quotient(a: Num, b: Num) -> Option<Num>;

/// The number that `rust_decimal` reads from a text, rounding what does not fit.
pub uninterp spec fn decimal_text(text: Seq<char>) -> Option<Num>;

/// The number that `rust_decimal` reads from a text that it can hold exactly.
pub uninterp spec fn decimal_exact_text(text: Seq<char>) -> Option<Num>;

/// The number that a text writes, or zero.
pub open spec fn number_or_zero(text: Seq<char>) -> Num {
    match decimal_text(text) {
        Some(n) => n,
        None => whole_num(0),
    }
}

/// The text that `rust_decimal` writes for a number.
pub uninterp spec fn decimal_display(n: Num) -> Seq<char>;

/// The number that a raw pair stands for.
pub open spec fn pair_num(p: (i128, u32)) -> Num {
    Num { mant: p.0 as int, scale: p.1 as int }
}

/// [`pair_num`] under an `Option`.
pub open spec fn pair_option(p: Option<(i128, u32)>) -> Option<Num> {
    match p {
        Some(q) => Some(pair_num(q)),
        None => None,
    }
}

/// [`decimal_sum`] of two numbers that may have overflowed already.
pub open spec fn osum(a: Option<Num>, b: Option<Num>) -> Option<Num> {
    match (a, b) {
        (Some(x), Some(y)) => decimal_sum(x, y),
        _ => None,
    }
}

/// [`decimal_difference`] of two numbers that may have overflowed already.
pub open spec fn odifference(a: Option<Num>, b: Option<Num>) -> Option<Num> {
    match (a, b) {
        (Some(x), Some(y)) => decimal_difference(x, y),
        _ => None,
    }
}

/// [`decimal_product`] of two numbers that may have overflowed already.
pub open spec fn oproduct(a: Option<Num>, b: Option<Num>) -> Option<Num> {
    match (a, b) {
        (Some(x), Some(y)) => decimal_product(x, y),
        _ => None,
    }
}

/// [`decimal_quotient`] of two numbers that may have overflowed already.
pub open spec fn oquotient(a: Option<Num>, b: Option<Num>) -> Option<Num> {
    match (a, b) {
        (Some(x), Some(y)) => decimal_quotient(x, y),
        _ => None,
    }
}

/// The view of an optional amount.
pub open spec fn decimal_option(d: Option<Decimal>) -> Option<Num> {
    match d {
        Some(x) => Some(x@),
        None => None,
    }
}

/// A result, unless an amount in it overflows.
#[derive(Debug)]
pub enum Checked<T> {
    Overflow,
    Value(T),
}

/// A decimal amount of up to 96 bits with up to 28 decimals.
#[derive(Clone, Copy, Debug)]
pub struct Decimal {
    mantissa: i128,
    scale: u32,
}

impl View for Decimal {
    type V = Num;

    closed spec fn view(&self) -> Num {
        pair_num((self.mantissa, self.scale))
    }
}

impl Decimal {
    /// The mantissa and the scale are within the limits of the format.
    #[verifier::type_invariant]
    pub open spec fn well_formed(self) -> bool {
        representable(self@)
    }

    /// The amount `num / 10^scale`.
    pub fn new(num: i64, scale: u32) -> (r: Decimal)
        requires
            scale <= 28,
        ensures
            r@ == (Num { mant: num as int, scale: scale as int }),
    {
        Decimal { mantissa: num as i128, scale }
    }

    /// The amount `mantissa / 10^scale`, where the format can hold it.
    pub fn from_parts(mantissa: i128, scale: u32) -> (r: Option<Decimal>)
        ensures
            r is Some <==> representable(Num { mant: mantissa as int, scale: scale as int }),
            r matches Some(d) ==> d@ == (Num { mant: mantissa as int, scale: scale as int }),
    {
        if scale <= 28 && mantissa <= 79228162514264337593543950335 && mantissa
            >= -79228162514264337593543950335 {
            Some(Decimal { mantissa, scale })
        } else {
            None
        }
    }

    /// Zero.
    pub fn zero() -> (r: Decimal)
        ensures
            r@ == whole_num(0),
    {
        Decimal { mantissa: 0, scale: 0 }
    }

    /// One.
    pub fn one() -> (r: Decimal)
        ensures
            r@ == whole_num(1),
    {
        Decimal { mantissa: 1, scale: 0 }
    }

    /// The whole amount `k`.
    pub fn from_u32(k: u32) -> (r: Decimal)
        ensures
            r@ == whole_num(k as int),
    {
        Decimal { mantissa: k as i128, scale: 0 }
    }

    /// The mantissa.
    pub fn mantissa(&self) -> (r: i128)
        ensures
            r == self@.mant,
    {
        self.mantissa
    }

    /// The number of decimals.
    pub fn scale(&self) -> (r: u32)
        ensures
            r == self@.scale,
    {
        self.scale
    }

    /// The amount with the opposite sign.
    pub fn negate(self) -> (r: Decimal)
        ensures
            r@ == negated(self@),
    {
        proof {
            use_type_invariant(&self);
        }
        Decimal { mantissa: -self.mantissa, scale: self.scale }
    }

    /// Whether this amount is below `other`.
    pub fn less_than(&self, other: &Decimal) -> (r: bool)
        ensures
            r == (units(self@) < units(other@)),
    {
        proof {
            use_type_invariant(self);
            use_type_invariant(other);
        }
        raw_less(self.mantissa, self.scale, other.mantissa, other.scale)
    }

    /// Whether this amount and `other` are the same, however they are written.
    pub fn same_as(&self, other: &Decimal) -> (r: bool)
        ensures
            r == (units(self@) == units(other@)),
    {
        !self.less_than(other) && !other.less_than(self)
    }

    /// Whether this amount is above zero.
    pub fn is_positive(&self) -> (r: bool)
        ensures
            r == (self@.mant > 0),
            r == (units(self@) > 0),
    {
        proof {
            use_type_invariant(self);
            lemma_units_sign(self@);
        }
        self.mantissa > 0
    }

    /// The smaller of the two amounts, this one where they are the same.
    pub fn min(self, other: Decimal) -> (r: Decimal)
        ensures
            r@ == num_min(self@, other@),
            r == self || r == other,
    {
        if other.less_than(&self) {
            other
        } else {
            self
        }
    }

    /// The sum, unless it overflows.
    pub fn checked_add(self, other: Decimal) -> (r: Option<Decimal>)
        ensures
            decimal_option(r) == decimal_sum(self@, other@),
            sum_facts(self@, other@, decimal_option(r)),
    {
        proof {
            use_type_invariant(&self);
            use_type_invariant(&other);
        }
        let found = raw_sum(self.mantissa, self.scale, other.mantissa, other.scale);
        proof {
            lemma_sum_facts(self@, other@, pair_option(found));
        }
        match found {
            Some((mantissa, scale)) => Some(Decimal { mantissa, scale }),
            None => None,
        }
    }

    /// The difference, unless it overflows.
    pub fn checked_sub(self, other: Decimal) -> (r: Option<Decimal>)
        ensures
            decimal_option(r) == decimal_difference(self@, other@),
            sum_facts(self@, negated(other@), decimal_option(r)),
    {
        proof {
            use_type_invariant(&self);
            use_type_invariant(&other);
        }
        let found = raw_difference(self.mantissa, self.scale, other.mantissa, other.scale);
        proof {
            lemma_sum_facts(self@, negated(other@), pair_option(found));
        }
        match found {
            Some((mantissa, scale)) => Some(Decimal { mantissa, scale }),
            None => None,
        }
    }

    /// The product, unless it overflows.
    pub fn checked_mul(self, other: Decimal) -> (r: Option<Decimal>)
        ensures
            decimal_option(r) == decimal_product(self@, other@),
            product_facts(self@, other@, decimal_option(r)),
    {
        proof {
            use_type_invariant(&self);
            use_type_invariant(&other);
        }
        let found = raw_product(self.mantissa, self.scale, other.mantissa, other.scale);
        proof {
            lemma_product_facts(self@, other@, pair_option(found));
        }
        match found {
            Some((mantissa, scale)) => Some(Decimal { mantissa, scale }),
            None => None,
        }
    }

    /// The quotient, unless it overflows or `other` is zero.
    pub fn checked_div(self, other: Decimal) -> (r: Option<Decimal>)
        ensures
            decimal_option(r) == decimal_quotient(self@, other@),
            quotient_facts(self@, other@, decimal_option(r)),
    {
        proof {
            use_type_invariant(&self);
            use_type_invariant(&other);
        }
        let found = raw_quotient(self.mantissa, self.scale, other.mantissa, other.scale);
        proof {
            lemma_quotient_facts(self@, other@, pair_option(found));
        }
        match found {
            Some((mantissa, scale)) => Some(Decimal { mantissa, scale }),
            None => None,
        }
    }

    /// The largest whole amount not above this one.
    pub fn floor(self) -> (r: Decimal)
        ensures
            r@ == num_floor(self@),
    {
        proof {
            use_type_invariant(&self);
        }
        let (mantissa, scale) = raw_floor(self.mantissa, self.scale);
        Decimal { mantissa, scale }
    }

    /// Reads an amount; digits beyond what the format holds are rounded away.
    pub fn parse(text: &str) -> (r: Option<Decimal>)
        ensures
            decimal_option(r) == decimal_text(text@),
    {
        match raw_text(text) {
            Some((mantissa, scale)) => Some(Decimal { mantissa, scale }),
            None => None,
        }
    }

    /// Reads an amount, or zero where there is none.
    pub fn parse_or_zero(text: &str) -> (r: Decimal)
        ensures
            r@ == number_or_zero(text@),
    {
        match Decimal::parse(text) {
            Some(d) => d,
            None => Decimal::zero(),
        }
    }

    /// Reads an amount that the format holds exactly.
    pub fn parse_exact(text: &str) -> (r: Option<Decimal>)
        ensures
            decimal_option(r) == decimal_exact_text(text@),
    {
        match raw_exact_text(text) {
            Some((mantissa, scale)) => Some(Decimal { mantissa, scale }),
            None => None,
        }
    }

    /// Writes the amount with all its decimals.
    pub fn to_text(&self) -> (r: String)
        ensures
            r@ == decimal_display(self@),
    {
        proof {
            use_type_invariant(self);
        }
        raw_display(self.mantissa, self.scale)
    }
}

impl PartialEq for Decimal {
    fn eq(&self, other: &Decimal) -> (r: bool) {
        self.same_as(other)
    }
}

impl vstd::std_specs::cmp::PartialEqSpecImpl for Decimal {
    open spec fn obeys_eq_spec() -> bool {
        true
    }

    open spec fn eq_spec(&self, other: &Decimal) -> bool {
        units(self@) == units(other@)
    }
}

impl Eq for Decimal {

}

impl PartialOrd for Decimal {
    fn partial_cmp(&self, other: &Decimal) -> (r: Option<Ordering>) {
        if self.less_than(other) {
            Some(Ordering::Less)
        } else if other.less_than(self) {
            Some(Ordering::Greater)
        } else {
            Some(Ordering::Equal)
        }
    }
}

impl vstd::std_specs::cmp::PartialOrdSpecImpl for Decimal {
    open spec fn obeys_partial_cmp_spec() -> bool {
        true
    }

    open spec fn partial_cmp_spec(&self, other: &Decimal) -> Option<Ordering> {
        if units(self@) < units(other@) {
            Some(Ordering::Less)
        } else if units(self@) > units(other@) {
            Some(Ordering::Greater)
        } else {
            Some(Ordering::Equal)
        }
    }
}

/// A power of ten is positive.
pub proof fn lemma_pow10_positive(n: int)
    ensures
        pow10(n) >= 1,
    decreases n,
{
    if n > 0 {
        lemma_pow10_positive(n - 1);
    }
}

/// Powers of ten multiply by adding exponents.
pub proof fn lemma_pow10_adds(m: int, n: int)
    requires
        0 <= m,
        0 <= n,
    ensures
        pow10(m) * pow10(n) == pow10(m + n),
    decreases m,
{
    if m > 0 {
        lemma_pow10_adds(m - 1, n);
        assert(10 * pow10(m - 1) * pow10(n) == 10 * (pow10(m - 1) * pow10(n))) by (nonlinear_arith);
    } else {
        assert(1 * pow10(n) == pow10(n));
    }
}

/// Ten to the 28th is one in units of `10^-28`.
pub proof fn lemma_pow10_28()
    ensures
        pow10(28) == one_unit(),
        pow10(0) == 1,
{
    reveal_with_fuel(pow10, 30);
}

/// A number has the sign of its mantissa.
pub proof fn lemma_units_sign(n: Num)
    ensures
        n.mant > 0 <==> units(n) > 0,
        n.mant == 0 <==> units(n) == 0,
        n.mant < 0 <==> units(n) < 0,
{
    let p = pow10(28 - n.scale);
    lemma_pow10_positive(28 - n.scale);
    assert(n.mant > 0 ==> n.mant * p > 0) by (nonlinear_arith)
        requires
            p >= 1,
    ;
    assert(n.mant < 0 ==> n.mant * p < 0) by (nonlinear_arith)
        requires
            p >= 1,
    ;
    assert(n.mant == 0 ==> n.mant * p == 0);
}

/// The value of a whole number.
pub proof fn lemma_units_whole(k: int)
    ensures
        units(whole_num(k)) == whole(k),
{
    lemma_pow10_28();
}

/// A sum written with the larger scale has the value of the sum.
pub proof fn lemma_units_aligned_sum(a: Num, b: Num)
    requires
        0 <= a.scale <= 28,
        0 <= b.scale <= 28,
    ensures
        units(aligned_sum(a, b)) == units(a) + units(b),
{
    let s = common_scale(a, b);
    let (pa, pb, ps) = (pow10(s - a.scale), pow10(s - b.scale), pow10(28 - s));
    lemma_pow10_adds(s - a.scale, 28 - s);
    lemma_pow10_adds(s - b.scale, 28 - s);
    assert((a.mant * pa + b.mant * pb) * ps == a.mant * (pa * ps) + b.mant * (pb * ps))
        by (nonlinear_arith);
}

/// Multiplying mantissas and adding scales multiplies the values.
pub proof fn lemma_units_product(a: Num, b: Num)
    requires
        0 <= a.scale,
        0 <= b.scale,
        a.scale + b.scale <= 28,
    ensures
        one_unit() * units(Num { mant: a.mant * b.mant, scale: a.scale + b.scale }) == units(a)
            * units(b),
{
    let (pa, pb, pc) = (
        pow10(28 - a.scale),
        pow10(28 - b.scale),
        pow10(28 - a.scale - b.scale),
    );
    lemma_pow10_28();
    lemma_pow10_adds(28 - a.scale, 28 - b.scale);
    lemma_pow10_adds(28, 28 - a.scale - b.scale);
    assert(pow10(28) * (a.mant * b.mant * pc) == a.mant * b.mant * (pow10(28) * pc))
        by (nonlinear_arith);
    assert(a.mant * pa * (b.mant * pb) == a.mant * b.mant * (pa * pb)) by (nonlinear_arith);
}

/// Rounding moves by half a step at most and never past a whole number of steps.
proof fn lemma_half_even(x: int, d: int, m: int)
    requires
        x >= 0,
        d >= 1,
    ensures
        half_even(x, d) >= 0,
        2 * (x - half_even(x, d) * d) <= d,
        2 * (half_even(x, d) * d - x) <= d,
        x <= m * d ==> half_even(x, d) <= m,
        x >= m * d ==> half_even(x, d) >= m,
{
    let (q, rest, h) = (x / d, x % d, half_even(x, d));
    assert(x == q * d + rest && 0 <= rest < d && q >= 0) by (nonlinear_arith)
        requires
            q == x / d,
            rest == x % d,
            x >= 0,
            d >= 1,
    ;
    assert((q + 1) * d == q * d + d) by (nonlinear_arith);
    assert(x <= m * d ==> h <= m) by (nonlinear_arith)
        requires
            x == q * d + rest,
            0 <= rest < d,
            h == q || (h == q + 1 && rest > 0),
            d >= 1,
    ;
    assert(x >= m * d ==> h >= m) by (nonlinear_arith)
        requires
            x == q * d + rest,
            0 <= rest < d,
            h == q || h == q + 1,
            d >= 1,
    ;
}

/// The decimals with which a number was found to fit.
proof fn lemma_fitted(x: int, d: int, scale: int) -> (t: int)
    requires
        0 <= scale <= 28,
        fitted(x, d, scale) is Some,
    ensures
        0 <= t <= scale,
        fitted(x, d, scale) == Some(half_even(x * pow10(t), d) * pow10(28 - t)),
        half_even(x * pow10(t), d) <= max_mant(),
        t == scale || half_even(x * pow10(t + 1), d) > max_mant(),
    decreases scale,
{
    if half_even(x * pow10(scale), d) <= max_mant() {
        scale
    } else {
        lemma_fitted(x, d, scale - 1)
    }
}

/// What fits without decimals fits.
proof fn lemma_fits_somehow(x: int, d: int, scale: int)
    requires
        0 <= x <= max_mant() * d,
        d >= 1,
        0 <= scale,
    ensures
        fitted(x, d, scale) is Some,
    decreases scale,
{
    if scale > 0 {
        lemma_fits_somehow(x, d, scale - 1);
    } else {
        assert(x * pow10(0) == x);
        lemma_half_even(x, d, max_mant());
    }
}

/// A number that fits with all its decimals is found exactly.
proof fn lemma_exact_fit(x: int, d: int, m: int, s: int, scale: int)
    requires
        d >= 1,
        x >= 0,
        0 <= m <= max_mant(),
        0 <= s <= scale <= 28,
        x * pow10(s) == m * d,
    ensures
        fitted(x, d, scale) == Some(m * pow10(28 - s)),
    decreases scale,
{
    let (p, q, w) = (pow10(s), pow10(scale - s), pow10(28 - scale));
    lemma_pow10_adds(s, scale - s);
    lemma_pow10_adds(scale - s, 28 - scale);
    lemma_pow10_positive(scale);
    assert(x * (p * q) == m * q * d) by (nonlinear_arith)
        requires
            x * p == m * d,
    ;
    let y = x * pow10(scale);
    assert(y >= 0) by (nonlinear_arith)
        requires
            y == x * pow10(scale),
            x >= 0,
            pow10(scale) >= 1,
    ;
    lemma_half_even(y, d, m * q);
    assert(half_even(y, d) == m * q);
    assert(m * q * w == m * (q * w)) by (nonlinear_arith);
    if m * q > max_mant() {
        assert(scale > s) by {
            assert(pow10(0) == 1);
        }
        lemma_exact_fit(x, d, m, s, scale - 1);
    }
}

/// A number that was found to fit is on the same side of a whole number.
proof fn lemma_fitted_keeps_sides(x: int, d: int, t: int, k: int)
    requires
        x >= 0,
        d >= 1,
        0 <= t <= 28,
    ensures
        x <= k * d ==> half_even(x * pow10(t), d) * pow10(28 - t) <= whole(k),
        x >= k * d ==> half_even(x * pow10(t), d) * pow10(28 - t) >= whole(k),
{
    let (q, p) = (pow10(t), pow10(28 - t));
    let (y, h) = (x * q, half_even(x * q, d));
    lemma_pow10_28();
    lemma_pow10_adds(t, 28 - t);
    lemma_pow10_positive(t);
    lemma_pow10_positive(28 - t);
    assert(y >= 0 && (x <= k * d ==> y <= k * q * d) && (x >= k * d ==> y >= k * q * d))
        by (nonlinear_arith)
        requires
            y == x * q,
            x >= 0,
            q >= 1,
    ;
    lemma_half_even(y, d, k * q);
    let u = one_unit();
    assert(k * q * p == k * u) by (nonlinear_arith)
        requires
            q * p == u,
    ;
    assert((h <= k * q ==> h * p <= k * q * p) && (h >= k * q ==> h * p >= k * q * p))
        by (nonlinear_arith)
        requires
            p >= 1,
    ;
}

/// A number that was found to fit is off by no more than a unit, or one part in
/// `10^28` where it is above one.
proof fn lemma_fitted_is_close(x: int, d: int, t: int)
    requires
        x >= 0,
        d >= 1,
        0 <= t <= 28,
        t == 28 || half_even(x * pow10(t + 1), d) > max_mant(),
    ensures
        ({
            let v = half_even(x * pow10(t), d) * pow10(28 - t);
            let off = one_unit() * magnitude(x * one_unit() - v * d);
            v >= 0 && (off <= d * one_unit() || off <= d * v)
        }),
{
    let (q, p, u) = (pow10(t), pow10(28 - t), one_unit());
    let y = x * q;
    let h = half_even(y, d);
    let v = h * p;
    lemma_pow10_28();
    lemma_pow10_adds(t, 28 - t);
    lemma_pow10_positive(t);
    lemma_pow10_positive(28 - t);
    assert(y >= 0) by (nonlinear_arith)
        requires
            y == x * q,
            x >= 0,
            q >= 1,
    ;
    lemma_half_even(y, d, 0);
    assert(v >= 0) by (nonlinear_arith)
        requires
            v == h * p,
            h >= 0,
            p >= 1,
    ;
    let gap = y - h * d;
    assert(x * u - v * d == gap * p) by (nonlinear_arith)
        requires
            gap == y - h * d,
            y == x * q,
            v == h * p,
            q * p == u,
    ;
    assert(2 * (gap * p) <= d * p && 2 * (gap * p) >= -(d * p)) by (nonlinear_arith)
        requires
            2 * gap <= d,
            -2 * gap <= d,
            p >= 1,
    ;
    let off = magnitude(x * u - v * d);
    assert(2 * off <= d * p);
    if t == 28 {
        assert(d * p == d);
        assert(u * off <= d * u) by (nonlinear_arith)
            requires
                0 <= off <= d,
                u >= 1,
        ;
    } else {
        let z = x * pow10(t + 1);
        assert(z == 10 * y) by (nonlinear_arith)
            requires
                z == x * (10 * q),
                y == x * q,
        ;
        let g = half_even(z, d);
        lemma_half_even(z, d, 0);
        let big = max_mant();
        assert(20 * h >= 2 * big - 9) by (nonlinear_arith)
            requires
                2 * (y - h * d) <= d,
                z == 10 * y,
                2 * (g * d - z) <= d,
                g >= big + 1,
                d >= 1,
        ;
        assert(2 * v >= u * p) by (nonlinear_arith)
            requires
                v == h * p,
                2 * h >= u,
                p >= 1,
        ;
        assert(u * off <= d * v) by (nonlinear_arith)
            requires
                2 * off <= d * p,
                2 * v >= u * p,
                d >= 1,
                u >= 1,
        ;
    }
}

/// Rounding keeps the order.
proof fn lemma_half_even_monotone(x: int, y: int, d: int)
    requires
        0 <= x <= y,
        d >= 1,
    ensures
        half_even(x, d) <= half_even(y, d),
{
    let (q, r, p, t) = (x / d, x % d, y / d, y % d);
    assert(x == q * d + r && 0 <= r < d && y == p * d + t && 0 <= t < d) by (nonlinear_arith)
        requires
            q == x / d,
            r == x % d,
            p == y / d,
            t == y % d,
            d >= 1,
    ;
    assert(q <= p) by (nonlinear_arith)
        requires
            q * d + r <= p * d + t,
            0 <= r,
            t < d,
            d >= 1,
    ;
}

/// Fitting keeps the order.
proof fn lemma_fitted_monotone(x: int, y: int, d: int)
    requires
        0 <= x <= y,
        d >= 1,
        fitted(x, d, 28) is Some,
        fitted(y, d, 28) is Some,
    ensures
        fitted(x, d, 28)->0 <= fitted(y, d, 28)->0,
{
    let t = lemma_fitted(x, d, 28);
    let s = lemma_fitted(y, d, 28);
    let (h, g) = (half_even(x * pow10(t), d), half_even(y * pow10(s), d));
    lemma_pow10_positive(t);
    lemma_pow10_positive(s);
    lemma_pow10_positive(28 - t);
    lemma_pow10_positive(28 - s);
    if t == s {
        assert(0 <= x * pow10(t) <= y * pow10(t)) by (nonlinear_arith)
            requires
                0 <= x <= y,
                pow10(t) >= 1,
        ;
        lemma_half_even_monotone(x * pow10(t), y * pow10(t), d);
        let p = pow10(28 - t);
        assert(h * p <= g * p) by (nonlinear_arith)
            requires
                h <= g,
                p >= 1,
        ;
    } else if t < s {
        let (a, b, c) = (pow10(t + 1), pow10(s), pow10(s - t - 1));
        lemma_pow10_adds(t + 1, s - t - 1);
        lemma_pow10_positive(t + 1);
        lemma_pow10_positive(s - t - 1);
        assert(0 <= x * a <= y * b) by (nonlinear_arith)
            requires
                0 <= x <= y,
                b == a * c,
                a >= 1,
                c >= 1,
        ;
        lemma_half_even_monotone(x * a, y * b, d);
    } else {
        let (z, w) = (y * pow10(s + 1), y * pow10(s));
        assert(z == 10 * w && w >= 0) by (nonlinear_arith)
            requires
                z == y * (10 * pow10(s)),
                w == y * pow10(s),
                y >= 0,
                pow10(s) >= 1,
        ;
        let f = half_even(z, d);
        lemma_half_even(z, d, 0);
        lemma_half_even(w, d, 0);
        let big = max_mant();
        assert(20 * g >= 2 * big - 9) by (nonlinear_arith)
            requires
                2 * (w - g * d) <= d,
                z == 10 * w,
                2 * (f * d - z) <= d,
                f >= big + 1,
                d >= 1,
        ;
        assert(10 * g >= big);
        let (p, q, e) = (pow10(28 - t), pow10(27 - s), pow10(t - s - 1));
        lemma_pow10_adds(28 - t, t - s - 1);
        lemma_pow10_positive(t - s - 1);
        assert(h * p <= 10 * g * q) by (nonlinear_arith)
            requires
                h <= big,
                big <= 10 * g,
                q == p * e,
                p >= 1,
                e >= 1,
                big >= 0,
        ;
        assert(pow10(28 - s) == 10 * q);
        assert(g * (10 * q) == 10 * g * q) by (nonlinear_arith);
    }
}

/// Law: rounding keeps the order. Of two exact results over one positive divisor, the
/// smaller is not above the larger after rounding either.
pub proof fn rounding_keeps_the_order(x: int, y: int, d: int, n: Num, m: Num)
    requires
        x <= y,
        d >= 1,
        has_value(x, d, Some(n)),
        has_value(y, d, Some(m)),
    ensures
        units(n) <= units(m),
{
    if x >= 0 {
        lemma_fitted_monotone(x, y, d);
    } else if y <= 0 {
        lemma_fitted_monotone(-y, -x, d);
    }
}

/// Law: a result that fits with all its decimals is exact.
pub proof fn what_fits_is_exact(x: int, d: int, exact: Num, r: Option<Num>)
    requires
        d >= 1,
        representable(exact),
        units(exact) * d == x * one_unit(),
        has_value(x, d, r),
    ensures
        r matches Some(n) && units(n) == units(exact),
{
    let (m, s) = (exact.mant, exact.scale);
    let (p, q) = (pow10(28 - s), pow10(s));
    lemma_pow10_28();
    lemma_pow10_adds(28 - s, s);
    lemma_pow10_positive(28 - s);
    lemma_pow10_positive(s);
    let l = magnitude(m);
    let y = magnitude(x);
    assert(x * q == m * d) by (nonlinear_arith)
        requires
            m * p * d == x * (p * q),
            p >= 1,
    {
        assert((m * d) * p == (x * q) * p);
    }
    assert(y * q == l * d) by (nonlinear_arith)
        requires
            x * q == m * d,
            y == magnitude(x),
            l == magnitude(m),
            q >= 1,
            d >= 1,
    ;
    lemma_exact_fit(y, d, l, s, 28);
    assert(l * p == magnitude(m * p)) by (nonlinear_arith)
        requires
            l == magnitude(m),
            p >= 1,
    ;
    assert((x >= 0 ==> m >= 0) && (x <= 0 ==> m <= 0)) by (nonlinear_arith)
        requires
            x * q == m * d,
            q >= 1,
            d >= 1,
    ;
    assert((m >= 0 ==> m * p >= 0) && (m <= 0 ==> m * p <= 0)) by (nonlinear_arith)
        requires
            p >= 1,
    ;
}

/// Law: the smaller of two numbers is one of them and above neither, and the floor of a
/// number is the whole number that is not above it by less than one.
pub proof fn smaller_and_floor_are_what_they_say(a: Num, b: Num)
    requires
        representable(a),
    ensures
        num_min(a, b) == a || num_min(a, b) == b,
        units(num_min(a, b)) <= units(a),
        units(num_min(a, b)) <= units(b),
        num_floor(a).scale == 0,
        units(num_floor(a)) <= units(a) < units(num_floor(a)) + one_unit(),
{
    let (p, r) = (pow10(a.scale), pow10(28 - a.scale));
    let k = a.mant / p;
    lemma_pow10_positive(a.scale);
    lemma_pow10_positive(28 - a.scale);
    lemma_pow10_adds(a.scale, 28 - a.scale);
    lemma_pow10_28();
    assert(k * p <= a.mant < (k + 1) * p) by (nonlinear_arith)
        requires
            p >= 1,
            k == a.mant / p,
    ;
    assert(k * (p * r) <= a.mant * r < k * (p * r) + p * r) by (nonlinear_arith)
        requires
            k * p <= a.mant < (k + 1) * p,
            r >= 1,
    ;
}

/// What follows from having a value: it is there where the exact one is in range, and
/// on the same side of every whole number.
proof fn lemma_has_value(x: int, d: int, r: Option<Num>)
    requires
        d >= 1,
        has_value(x, d, r),
    ensures
        magnitude(x) <= max_mant() * d ==> r is Some,
        r matches Some(n) ==> forall|k: int| #![trigger whole(k)]
            {
                &&& x <= k * d ==> units(n) <= whole(k)
                &&& x >= k * d ==> units(n) >= whole(k)
            },
{
    let y = magnitude(x);
    if y <= max_mant() * d {
        lemma_fits_somehow(y, d, 28);
    }
    if let Some(n) = r {
        let t = lemma_fitted(y, d, 28);
        assert forall|k: int| #![trigger whole(k)]
            {
                &&& x <= k * d ==> units(n) <= whole(k)
                &&& x >= k * d ==> units(n) >= whole(k)
            } by {
            lemma_fitted_keeps_sides(y, d, t, k);
            lemma_fitted_keeps_sides(y, d, t, -k);
            assert(whole(-k) == -whole(k));
            assert(-k * d == -(k * d)) by (nonlinear_arith);
        }
    }
}

/// What follows from the value of a sum.
proof fn lemma_sum_facts(a: Num, b: Num, r: Option<Num>)
    requires
        is_sum(a, b, r),
    ensures
        sum_facts(a, b, r),
{
    lemma_has_value(units(a) + units(b), one_unit(), r);
}

/// What follows from the value of a product.
proof fn lemma_product_facts(a: Num, b: Num, r: Option<Num>)
    requires
        is_product(a, b, r),
    ensures
        product_facts(a, b, r),
{
    let (exact, u) = (units(a) * units(b), one_unit());
    let d = u * u;
    let x = magnitude(exact);
    lemma_has_value(exact, d, r);
    if let Some(n) = r {
        assert forall|k: int| -max_mant() <= k <= max_mant() implies {
            &&& exact <= one_unit() * #[trigger] whole(k) ==> units(n) <= whole(k)
            &&& exact >= one_unit() * whole(k) ==> units(n) >= whole(k)
        } by {
            assert(u * (k * u) == k * d) by (nonlinear_arith)
                requires
                    d == u * u,
            ;
        }
        let t = lemma_fitted(x, d, 28);
        lemma_fitted_is_close(x, d, t);
        let v = magnitude(units(n));
        let (off, close) = (magnitude(x * u - v * d), magnitude(x - v * u));
        assert(x * u - v * d == u * (x - v * u)) by (nonlinear_arith)
            requires
                d == u * u,
        ;
        assert(off == u * close) by (nonlinear_arith)
            requires
                x * u - v * d == u * (x - v * u),
                off == magnitude(x * u - v * d),
                close == magnitude(x - v * u),
                u >= 1,
        ;
        let g = grain(n);
        assert(u * off <= d * g) by (nonlinear_arith)
            requires
                u * off <= d * u || u * off <= d * v,
                g >= u,
                g >= v,
                d >= 1,
        ;
        assert(close <= g) by (nonlinear_arith)
            requires
                u * off <= d * g,
                off == u * close,
                d == u * u,
                u >= 1,
        ;
    }
}

/// What follows from the value of a quotient.
proof fn lemma_quotient_facts(a: Num, b: Num, r: Option<Num>)
    requires
        is_quotient_of(a, b, r),
    ensures
        quotient_facts(a, b, r),
{
    lemma_units_sign(a);
    lemma_units_sign(b);
    let u = one_unit();
    if b.mant != 0 {
        let (x, d) = (magnitude(units(a)), magnitude(units(b)));
        if let Some(n) = r {
            let t = lemma_fitted(x, d, 28);
            lemma_fitted_is_close(x, d, t);
            let (v, w) = (magnitude(units(n)), units(n));
            let (e, f) = (units(a), units(b));
            assert(magnitude(x * u - v * d) == magnitude(e * u - w * f)) by (nonlinear_arith)
                requires
                    x == magnitude(e),
                    d == magnitude(f),
                    v == magnitude(w),
                    (e >= 0) == (f >= 0) || e == 0 ==> w >= 0,
                    (e >= 0) != (f >= 0) || e == 0 ==> w <= 0,
            ;
            let (g, off) = (grain(n), u * magnitude(x * u - v * d));
            assert(off <= d * g) by (nonlinear_arith)
                requires
                    off <= d * u || off <= d * v,
                    g >= u,
                    g >= v,
                    d >= 1,
            ;
        }
        assert forall|n: Num| representable(n) && #[trigger] is_quotient(a, b, n) implies r is Some
            && units(r->0) == units(n) by {
            let (e, f, m, q) = (units(a), units(b), n.mant, pow10(n.scale));
            lemma_pow10_positive(n.scale);
            lemma_units_sign(n);
            let l = magnitude(m);
            assert(x * q == l * d) by (nonlinear_arith)
                requires
                    e * q == m * f,
                    x == magnitude(e),
                    d == magnitude(f),
                    l == magnitude(m),
                    q >= 1,
            ;
            lemma_exact_fit(x, d, l, n.scale, 28);
            let p = pow10(28 - n.scale);
            lemma_pow10_positive(28 - n.scale);
            assert(l * p == magnitude(m * p)) by (nonlinear_arith)
                requires
                    l == magnitude(m),
                    p >= 1,
            ;
            assert((e >= 0) == (f >= 0) || e == 0 ==> m >= 0) by (nonlinear_arith)
                requires
                    e * q == m * f,
                    q >= 1,
                    f != 0,
            ;
            assert((e >= 0) != (f >= 0) || e == 0 ==> m <= 0) by (nonlinear_arith)
                requires
                    e * q == m * f,
                    q >= 1,
                    f != 0,
            ;
        }
    }
}

/// Calls `<` of `rust_decimal::Decimal`: the comparison is by value.
#[verifier::external_body]
fn raw_less(a_mant: i128, a_scale: u32, b_mant: i128, b_scale: u32) -> (r: bool)
    requires
        representable(pair_num((a_mant, a_scale))),
        representable(pair_num((b_mant, b_scale))),
    ensures
        r == (units(pair_num((a_mant, a_scale))) < units(pair_num((b_mant, b_scale)))),
{
    let a = rust_decimal::Decimal::from_i128_with_scale(a_mant, a_scale);
    let b = rust_decimal::Decimal::from_i128_with_scale(b_mant, b_scale);
    a < b
}

/// Calls `rust_decimal::Decimal::checked_add`. Its result [`is_sum`]; with how many
/// decimals a rounded sum is written is left to the name.
#[verifier::external_body]
fn raw_sum(a_mant: i128, a_scale: u32, b_mant: i128, b_scale: u32) -> (r: Option<(i128, u32)>)
    requires
        representable(pair_num((a_mant, a_scale))),
        representable(pair_num((b_mant, b_scale))),
    ensures
        pair_option(r) == decimal_sum(pair_num((a_mant, a_scale)), pair_num((b_mant, b_scale))),
        is_sum(pair_num((a_mant, a_scale)), pair_num((b_mant, b_scale)), pair_option(r)),
{
    let a = rust_decimal::Decimal::from_i128_with_scale(a_mant, a_scale);
    let b = rust_decimal::Decimal::from_i128_with_scale(b_mant, b_scale);
    a.checked_add(b).map(|d| (d.mantissa(), d.scale()))
}

/// Calls `rust_decimal::Decimal::checked_sub`. Its result [`is_sum`] with the second
/// number negated; with how many decimals a rounded difference is written is left to
/// the name.
#[verifier::external_body]
fn raw_difference(a_mant: i128, a_scale: u32, b_mant: i128, b_scale: u32) -> (r: Option<
    (i128, u32),
>)
    requires
        representable(pair_num((a_mant, a_scale))),
        representable(pair_num((b_mant, b_scale))),
    ensures
        pair_option(r) == decimal_difference(
            pair_num((a_mant, a_scale)),
            pair_num((b_mant, b_scale)),
        ),
        is_sum(
            pair_num((a_mant, a_scale)),
            negated(pair_num((b_mant, b_scale))),
            pair_option(r),
        ),
{
    let a = rust_decimal::Decimal::from_i128_with_scale(a_mant, a_scale);
    let b = rust_decimal::Decimal::from_i128_with_scale(b_mant, b_scale);
    a.checked_sub(b).map(|d| (d.mantissa(), d.scale()))
}

/// Calls `rust_decimal::Decimal::checked_mul`. Its result [`is_product`]; with how many
/// decimals a rounded product is written is left to the name.
#[verifier::external_body]
fn raw_product(a_mant: i128, a_scale: u32, b_mant: i128, b_scale: u32) -> (r: Option<(i128, u32)>)
    requires
        representable(pair_num((a_mant, a_scale))),
        representable(pair_num((b_mant, b_scale))),
    ensures
        pair_option(r) == decimal_product(pair_num((a_mant, a_scale)), pair_num((b_mant, b_scale))),
        is_product(pair_num((a_mant, a_scale)), pair_num((b_mant, b_scale)), pair_option(r)),
{
    let a = rust_decimal::Decimal::from_i128_with_scale(a_mant, a_scale);
    let b = rust_decimal::Decimal::from_i128_with_scale(b_mant, b_scale);
    a.checked_mul(b).map(|d| (d.mantissa(), d.scale()))
}

/// Calls `rust_decimal::Decimal::checked_div`. Its result [`is_quotient_of`] its
/// arguments; with how many decimals any other quotient is written is left to the name.
#[verifier::external_body]
fn raw_quotient(a_mant: i128, a_scale: u32, b_mant: i128, b_scale: u32) -> (r: Option<(i128, u32)>)
    requires
        representable(pair_num((a_mant, a_scale))),
        representable(pair_num((b_mant, b_scale))),
    ensures
        pair_option(r) == decimal_quotient(
            pair_num((a_mant, a_scale)),
            pair_num((b_mant, b_scale)),
        ),
        is_quotient_of(pair_num((a_mant, a_scale)), pair_num((b_mant, b_scale)), pair_option(r)),
{
    let a = rust_decimal::Decimal::from_i128_with_scale(a_mant, a_scale);
    let b = rust_decimal::Decimal::from_i128_with_scale(b_mant, b_scale);
    a.checked_div(b).map(|d| (d.mantissa(), d.scale()))
}

/// Calls `rust_decimal::Decimal::floor`, which rounds down to a whole number
/// and drops the decimals.
#[verifier::external_body]
fn raw_floor(mant: i128, scale: u32) -> (r: (i128, u32))
    requires
        representable(pair_num((mant, scale))),
    ensures
        pair_num(r) == num_floor(pair_num((mant, scale))),
        representable(pair_num(r)),
{
    let d = rust_decimal::Decimal::from_i128_with_scale(mant, scale).floor();
    (d.mantissa(), d.scale())
}

/// Calls `from_str` of `rust_decimal::Decimal`, whose grammar is left to the
/// name; what it returns fits the format.
#[verifier::external_body]
fn raw_text(text: &str) -> (r: Option<(i128, u32)>)
    ensures
        pair_option(r) == decimal_text(text@),
        r matches Some(p) ==> representable(pair_num(p)),
{
    let parsed: Result<rust_decimal::Decimal, rust_decimal::Error> = text.parse();
    parsed.ok().map(|d| (d.mantissa(), d.scale()))
}

/// Calls `rust_decimal::Decimal::from_str_exact`, whose grammar is left to the
/// name; what it returns fits the format.
#[verifier::external_body]
fn raw_exact_text(text: &str) -> (r: Option<(i128, u32)>)
    ensures
        pair_option(r) == decimal_exact_text(text@),
        r matches Some(p) ==> representable(pair_num(p)),
{
    rust_decimal::Decimal::from_str_exact(text).ok().map(|d| (d.mantissa(), d.scale()))
}

/// Calls `to_string` of `rust_decimal::Decimal`, whose form is left to the name.
#[verifier::external_body]
fn raw_display(mant: i128, scale: u32) -> (r: String)
    requires
        representable(pair_num((mant, scale))),
    ensures
        r@ == decimal_display(pair_num((mant, scale))),
{
    rust_decimal::Decimal::from_i128_with_scale(mant, scale).to_string()
}

} // verus!
