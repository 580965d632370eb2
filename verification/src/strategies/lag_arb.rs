//! Strategy A: the outcome that the exchange price is moving towards.
//!
//! 1. If the exchange price rose by more than the threshold over the window, buy
//!    YES, unless it is dear already.
//! 2. If it fell by more than the threshold, buy NO, unless it is dear already.
//! 3. The stronger the move, the larger the order, up to a cap.
//! 4. At most one entry per market and direction in each stretch of time.

use crate::bilateral::market_books;
use crate::book_state::{BookState, BookView};
use crate::decimal::{
    Checked, Decimal, Num, close_to_product, close_to_quotient, decimal_difference, decimal_option,
    decimal_product, decimal_quotient, decimal_sum, grain, is_product, is_sum, lemma_pow10_28,
    lemma_pow10_adds, lemma_pow10_positive, lemma_units_product, lemma_units_sign, lemma_units_whole,
    magnitude, max_mant, negated, num_min, odifference, one_unit, oproduct, osum, pow10,
    product_facts, representable, rounding_keeps_the_order, units, what_fits_is_exact, whole,
    whole_num,
};
use crate::double::Double;
use crate::fees::lemma_units_negated;
use crate::market_index::{IndexView, MarketIndex};
use crate::pricing_model::{product_id_from_slug, product_of_slug};
use crate::strategies::{
    Decision, DecisionKind, DecisionView, blank_decision, decision_option, skip_reasons,
};
use crate::string_map::StringMap;
use crate::timestamp::{Timestamp, in_range, seconds_between};
use crate::types::{Market, MarketView};
use vstd::prelude::*;

verus! {

/// When to enter and with how much.
#[derive(Debug, Clone, Copy)]
pub struct LagArbConfig {
    /// The least relative move of the exchange price over the window.
    pub momentum_threshold: Double,
    pub base_size_usdc: Decimal,
    pub max_size_usdc: Decimal,
    pub min_ttr_seconds: i64,
    pub max_ttr_seconds: i64,
    pub min_price_yes: Decimal,
    pub max_price_yes: Decimal,
    pub momentum_window_s: i64,
    pub dedup_window_s: i64,
}

/// What a [`LagArbConfig`] says.
pub struct LagView {
    pub momentum_threshold: Double,
    pub base_size_usdc: Num,
    pub max_size_usdc: Num,
    pub min_ttr_seconds: int,
    pub max_ttr_seconds: int,
    pub min_price_yes: Num,
    pub max_price_yes: Num,
    pub momentum_window_s: int,
    pub dedup_window_s: int,
}

impl View for LagArbConfig {
    type V = LagView;

    open spec fn view(&self) -> LagView {
        LagView {
            momentum_threshold: self.momentum_threshold,
            base_size_usdc: self.base_size_usdc@,
            max_size_usdc: self.max_size_usdc@,
            min_ttr_seconds: self.min_ttr_seconds as int,
            max_ttr_seconds: self.max_ttr_seconds as int,
            min_price_yes: self.min_price_yes@,
            max_price_yes: self.max_price_yes@,
            momentum_window_s: self.momentum_window_s as int,
            dedup_window_s: self.dedup_window_s as int,
        }
    }
}

/// The bits of the double nearest to five basis points, 0.0005.
pub const FIVE_BASIS_POINTS: u64 = 0x3f40_624d_d2f1_a9fc;

/// What the strategy goes by unless told otherwise.
pub open spec fn default_lag() -> LagView {
    LagView {
        momentum_threshold: Double { bits: FIVE_BASIS_POINTS },
        base_size_usdc: whole_num(10),
        max_size_usdc: whole_num(50),
        min_ttr_seconds: 30,
        max_ttr_seconds: 600,
        min_price_yes: Num { mant: 3, scale: 2 },
        max_price_yes: Num { mant: 97, scale: 2 },
        momentum_window_s: 30,
        dedup_window_s: 60,
    }
}

impl Default for LagArbConfig {
    fn default() -> (r: LagArbConfig)
        ensures
            r@ == default_lag(),
    {
        LagArbConfig {
            momentum_threshold: Double { bits: FIVE_BASIS_POINTS },
            base_size_usdc: Decimal::new(10, 0),
            max_size_usdc: Decimal::new(50, 0),
            min_ttr_seconds: 30,
            max_ttr_seconds: 600,
            min_price_yes: Decimal::new(3, 2),
            max_price_yes: Decimal::new(97, 2),
            momentum_window_s: 30,
            dedup_window_s: 60,
        }
    }
}

/// The last entry of each market and direction.
pub type Entries = Map<(Seq<char>, Seq<char>), int>;

/// When the strategy last entered each market in each direction.
pub struct DedupState {
    last_entry: StringMap<StringMap<Timestamp>>,
}

impl View for DedupState {
    type V = Entries;

    closed spec fn view(&self) -> Entries {
        Map::new(
            |k: (Seq<char>, Seq<char>)|
                self.last_entry@.contains_key(k.0) && self.last_entry@[k.0]@.contains_key(k.1),
            |k: (Seq<char>, Seq<char>)| self.last_entry@[k.0]@[k.1]@,
        )
    }
}

/// An entry at `now` is not too soon after the last one.
pub open spec fn may_emit(
    entries: Entries,
    market_id: Seq<char>,
    direction: Seq<char>,
    now: int,
    window_s: int,
) -> bool {
    entries.contains_key((market_id, direction)) ==> seconds_between(
        entries[(market_id, direction)],
        now,
    ) >= window_s
}

impl Default for DedupState {
    fn default() -> (r: DedupState)
        ensures
            r@ == Entries::empty(),
    {
        let r = DedupState { last_entry: StringMap::new() };
        assert(r@ =~= Entries::empty());
        r
    }
}

impl DedupState {
    /// Whether an entry at `now` is not too soon after the last one.
    pub fn should_emit(&self, mkt: &str, dir: &str, now: Timestamp, window_s: i64) -> (r: bool)
        ensures
            r == may_emit(self@, mkt@, dir@, now@, window_s as int),
    {
        if let Some(by_direction) = self.last_entry.get(mkt) {
            if let Some(last) = by_direction.get(dir) {
                if now.seconds_since(last) < window_s {
                    return false;
                }
            }
        }
        true
    }

    /// Notes an entry.
    pub fn record(&mut self, mkt: &str, dir: &str, ts: Timestamp)
        ensures
            final(self)@ == old(self)@.insert((mkt@, dir@), ts@),
    {
        let mut by_direction = match self.last_entry.remove(mkt) {
            Some(m) => m,
            None => StringMap::new(),
        };
        by_direction.insert(dir.to_string(), ts);
        self.last_entry.insert(mkt.to_string(), by_direction);
        assert(self@ =~= old(self)@.insert((mkt@, dir@), ts@));
    }
}

/// How the exchange price moved over the window. The figures are worked out in
/// floating point and then written as amounts.
#[derive(Debug, Clone, Copy)]
pub struct Momentum {
    /// The relative move.
    pub value: Double,
    /// The size of the move over the threshold, at most five; absent where it
    /// has no decimal form.
    pub ratio: Option<Decimal>,
    /// The size of the move; absent where it has no decimal form.
    pub magnitude: Option<Decimal>,
}

/// What the exchange says of a product.
#[derive(Debug, Clone, Copy)]
pub struct CexSignal {
    /// The last price.
    pub spot: Option<Double>,
    /// The move over the window, where there were enough ticks to tell.
    pub momentum: Option<Momentum>,
}

/// An optional amount, or else a whole number.
pub open spec fn amount_or(d: Option<Decimal>, k: int) -> Num {
    match d {
        Some(x) => x@,
        None => whole_num(k),
    }
}

/// What the strategy expects to make on `shares` at `price`, if it is right 55
/// times in a hundred: a share pays one dollar or nothing.
pub open spec fn expected_profit(price: Num, shares: Num) -> Option<Num> {
    let accuracy = Some(Num { mant: 55, scale: 2 });
    let one = Some(whole_num(1));
    let if_win = oproduct(odifference(one, Some(price)), Some(shares));
    let if_lose = oproduct(Some(negated(price)), Some(shares));
    osum(oproduct(accuracy, if_win), oproduct(odifference(one, accuracy), if_lose))
}

/// What to spend on a move: the base size times the strength of the move, up to
/// the cap.
pub open spec fn target_wanted(momentum: Momentum, cfg: LagView) -> Option<Num> {
    match decimal_product(cfg.base_size_usdc, amount_or(momentum.ratio, 1)) {
        Some(target) => Some(num_min(target, cfg.max_size_usdc)),
        None => None,
    }
}

/// [`target_wanted`] of a move of so many times the threshold, with no digit
/// rounded away.
pub open spec fn exact_target(ratio: Num, cfg: LagView) -> Num {
    num_min(times(cfg.base_size_usdc, ratio), cfg.max_size_usdc)
}

/// The product of two numbers, with all their decimals.
pub open spec fn times(a: Num, b: Num) -> Num {
    Num { mant: a.mant * b.mant, scale: a.scale + b.scale }
}

/// Neither number is zero, and their product fits an amount with all its decimals.
pub open spec fn multiplies_exactly(a: Num, b: Num) -> bool {
    &&& a.mant != 0
    &&& b.mant != 0
    &&& representable(times(a, b))
}

/// The shares to aim for at `price`.
pub open spec fn shares_wanted(price: Num, momentum: Momentum, cfg: LagView) -> Option<Num> {
    match target_wanted(momentum, cfg) {
        None => None,
        Some(target) => if units(price) > 0 {
            decimal_quotient(target, price)
        } else {
            Some(whole_num(0))
        },
    }
}

/// The decision to buy at `price`, where `available` shares are on offer.
pub open spec fn lag_entry(
    base: DecisionView,
    direction: Seq<char>,
    price: Num,
    available: Num,
    momentum: Momentum,
    cfg: LagView,
) -> Option<DecisionView> {
    match shares_wanted(price, momentum, cfg) {
        None => None,
        Some(wanted) => {
            let shares = num_min(wanted, available);
            if units(shares) <= 0 {
                Some(base.because(skip_reasons::LIQUIDITY_TOO_LOW@))
            } else {
                match (expected_profit(price, shares), oproduct(Some(price), Some(shares))) {
                    (Some(pnl), Some(size)) => Some(
                        DecisionView {
                            edge_per_unit: amount_or(momentum.magnitude, 0),
                            ..base.entering(direction, size, pnl)
                        },
                    ),
                    _ => None,
                }
            }
        },
    }
}

/// `size` is not above `cap` but for two roundings, each of one unit or one part in
/// `10^28`.
pub open spec fn within_cap(size: Num, cap: Num) -> bool {
    units(size) * ((one_unit() - 1) * (one_unit() - 1)) <= (units(cap) + 2) * (one_unit()
        * one_unit())
}

/// The steps that lead to what the strategy expects to make are sums and products.
pub open spec fn profit_adds_up(price: Num, shares: Num) -> bool {
    let one = whole_num(1);
    let accuracy = Num { mant: 55, scale: 2 };
    let gain = decimal_difference(one, price);
    let miss = decimal_difference(one, accuracy);
    let win = decimal_product(gain->0, shares);
    let lose = decimal_product(negated(price), shares);
    let x = decimal_product(accuracy, win->0);
    let y = decimal_product(miss->0, lose->0);
    &&& is_sum(one, negated(price), gain)
    &&& is_sum(one, negated(accuracy), miss)
    &&& is_product(gain->0, shares, win)
    &&& is_product(negated(price), shares, lose)
    &&& is_product(accuracy, win->0, x)
    &&& is_product(miss->0, lose->0, y)
    &&& is_sum(x->0, y->0, decimal_sum(x->0, y->0))
}

/// What is spent at a price buys shares, no more than there are at it, and is expected to
/// make what these shares make.
pub open spec fn is_on_offer(price: Num, available: Num, spent: Num, pnl: Num) -> bool {
    exists|shares: Num|
        {
            &&& #[trigger] decimal_product(price, shares) == Some(spent)
            &&& product_facts(price, shares, Some(spent))
            &&& representable(price)
            &&& representable(shares)
            &&& 0 < units(shares)
            &&& units(shares) <= units(available)
            &&& expected_profit(price, shares) == Some(pnl)
            &&& profit_adds_up(price, shares)
        }
}

/// A decision to enter buys shares that are on offer: those of the outcome that it
/// names, at the price of that outcome.
pub open spec fn entry_is_on_offer(d: DecisionView) -> bool {
    if d.direction == Some("YES"@) {
        is_on_offer(d.price_yes, d.size_yes_available, d.size_usdc, d.expected_pnl_usdc)
    } else {
        is_on_offer(d.price_no, d.size_no_available, d.size_usdc, d.expected_pnl_usdc)
    }
}

/// A decision to enter spends no more than the cap but for rounding, on shares that are
/// on offer.
pub open spec fn entry_within_cap(d: DecisionView, cfg: LagView) -> bool {
    d.decision == DecisionKind::Enter ==> within_cap(d.size_usdc, cfg.max_size_usdc)
        && entry_is_on_offer(d)
}

/// The outcome that a move points to.
pub open spec fn direction_of(momentum: Momentum) -> Seq<char> {
    if Double::nought().below(momentum.value) {
        "YES"@
    } else {
        "NO"@
    }
}

/// The outcome to buy on a move, true for YES, or the reason to buy neither: the
/// move stays below the threshold, the outcome is dear already, or an entry would
/// come too soon.
pub open spec fn move_verdict(
    momentum: Momentum,
    price_yes: Num,
    price_no: Num,
    cfg: LagView,
    block_yes: bool,
    block_no: bool,
) -> Result<bool, Seq<char>> {
    let up = Double::nought().below(momentum.value);
    let price = if up {
        price_yes
    } else {
        price_no
    };
    if momentum.value.absolute().below(cfg.momentum_threshold) {
        Err(skip_reasons::NO_EDGE@)
    } else if units(price) >= units(Num { mant: 7, scale: 1 }) {
        Err(skip_reasons::PRICE_OUT_OF_RANGE@)
    } else if (up && block_yes) || (!up && block_no) {
        Err(skip_reasons::DEDUP@)
    } else {
        Ok(up)
    }
}

/// The decision on a move of the exchange price; `blocked` says in which
/// directions an entry would come too soon.
pub open spec fn lag_on_momentum(
    base: DecisionView,
    a: (Num, Num),
    b: (Num, Num),
    momentum: Momentum,
    cfg: LagView,
    blocked: spec_fn(Seq<char>) -> bool,
) -> Option<DecisionView> {
    let noted = DecisionView { cex_edge: Some(momentum.value), ..base };
    match move_verdict(momentum, a.0, b.0, cfg, blocked("YES"@), blocked("NO"@)) {
        Err(reason) => Some(noted.because(reason)),
        Ok(up) => {
            let (price, available) = if up {
                a
            } else {
                b
            };
            lag_entry(noted, direction_of(momentum), price, available, momentum, cfg)
        },
    }
}

/// `price` is within the bounds of `cfg`.
pub open spec fn lag_price_in_range(price: Num, cfg: LagView) -> bool {
    units(cfg.min_price_yes) <= units(price) <= units(cfg.max_price_yes)
}

/// The decision on two lowest asks, once nothing about the market itself speaks
/// against it; nothing where a figure overflows.
pub open spec fn lag_on_asks(
    base: DecisionView,
    ask_a: Option<(Num, Num)>,
    ask_b: Option<(Num, Num)>,
    product: Option<Seq<char>>,
    signals: Map<Seq<char>, CexSignal>,
    cfg: LagView,
    blocked: spec_fn(Seq<char>) -> bool,
) -> Option<DecisionView> {
    match (ask_a, ask_b) {
        (Some(a), Some(b)) => match decimal_sum(a.0, b.0) {
            None => None,
            Some(sum_ask) => {
                let noted = base.at_asks(a, b, sum_ask);
                if !lag_price_in_range(a.0, cfg) || !lag_price_in_range(b.0, cfg) {
                    Some(noted.because(skip_reasons::PRICE_OUT_OF_RANGE@))
                } else {
                    lag_on_signals(noted, a, b, product, signals, cfg, blocked)
                }
            },
        },
        _ => Some(base.because(skip_reasons::LIQUIDITY_TOO_LOW@)),
    }
}

/// The decision on what the exchange says.
pub open spec fn lag_on_signals(
    base: DecisionView,
    a: (Num, Num),
    b: (Num, Num),
    product: Option<Seq<char>>,
    signals: Map<Seq<char>, CexSignal>,
    cfg: LagView,
    blocked: spec_fn(Seq<char>) -> bool,
) -> Option<DecisionView> {
    match product {
        None => Some(base.because(skip_reasons::NO_CEX_DATA@)),
        Some(p) => {
            let named = DecisionView { cex_product: Some(p), ..base };
            if !signals.contains_key(p) {
                Some(named.because(skip_reasons::NO_CEX_DATA@))
            } else {
                let spotted = DecisionView { cex_spot: signals[p].spot, ..named };
                match signals[p].momentum {
                    None => Some(spotted.because(skip_reasons::NO_CEX_DATA@)),
                    Some(m) => lag_on_momentum(spotted, a, b, m, cfg, blocked),
                }
            }
        },
    }
}

/// The market resolves too soon or too late, or nobody knows when.
pub open spec fn lag_ttr_out_of_range(ttr: Option<int>, cfg: LagView) -> bool {
    let t = match ttr {
        Some(t) => t,
        None => -1,
    };
    t < cfg.min_ttr_seconds || t > cfg.max_ttr_seconds
}

/// The directions in which an entry at `now` would come too soon.
pub open spec fn too_soon(entries: Entries, market_id: Seq<char>, now: int, cfg: LagView) -> spec_fn(
    Seq<char>,
) -> bool {
    |direction: Seq<char>| !may_emit(entries, market_id, direction, now, cfg.dedup_window_s)
}

/// The decision of the strategy at `now`; nothing where a figure overflows.
pub open spec fn lag_decision(
    market: MarketView,
    book_a: BookView,
    book_b: BookView,
    signals: Map<Seq<char>, CexSignal>,
    cfg: LagView,
    entries: Entries,
    now: int,
) -> Option<DecisionView> {
    let base = blank_decision("A"@, market, now);
    if market.neg_risk {
        Some(base.because(skip_reasons::NEG_RISK@))
    } else if lag_ttr_out_of_range(base.ttr_seconds, cfg) {
        Some(base.because(skip_reasons::TTR_TOO_LOW@))
    } else {
        lag_on_asks(
            base,
            book_a.ask(),
            book_b.ask(),
            product_of_slug(market.slug),
            signals,
            cfg,
            too_soon(entries, market.condition_id, now, cfg),
        )
    }
}

/// The entries after a decision: an entry is noted, a skip is not.
pub open spec fn entries_after(entries: Entries, market: MarketView, d: DecisionView) -> Entries {
    if d.decision == DecisionKind::Enter {
        entries.insert((market.condition_id, d.direction->0), d.timestamp)
    } else {
        entries
    }
}

/// The decision can be taken without overflow, whatever the time and the entries.
pub open spec fn lag_defined(
    market: MarketView,
    book_a: BookView,
    book_b: BookView,
    signals: Map<Seq<char>, CexSignal>,
    cfg: LagView,
) -> bool {
    market.neg_risk || lag_on_asks(
        blank_decision("A"@, market, 0),
        book_a.ask(),
        book_b.ask(),
        product_of_slug(market.slug),
        signals,
        cfg,
        |direction: Seq<char>| false,
    ) is Some
}

/// Where the decision can be taken at one time, it can be at any.
pub proof fn lag_defined_at_any_time(
    market: MarketView,
    book_a: BookView,
    book_b: BookView,
    signals: Map<Seq<char>, CexSignal>,
    cfg: LagView,
    entries: Entries,
    now: int,
)
    requires
        lag_defined(market, book_a, book_b, signals, cfg),
    ensures
        lag_decision(market, book_a, book_b, signals, cfg, entries, now) is Some,
{
}

/// What the strategy expects to make.
fn profit_of(price: Decimal, shares: Decimal) -> (r: Option<Decimal>)
    ensures
        decimal_option(r) == expected_profit(price@, shares@),
        r is Some ==> profit_adds_up(price@, shares@),
{
    let accuracy = Decimal::new(55, 2);
    let one = Decimal::one();
    let gain = match one.checked_sub(price) {
        Some(x) => x,
        None => return None,
    };
    let if_win = match gain.checked_mul(shares) {
        Some(x) => x,
        None => return None,
    };
    let if_lose = match price.negate().checked_mul(shares) {
        Some(x) => x,
        None => return None,
    };
    let miss = match one.checked_sub(accuracy) {
        Some(x) => x,
        None => return None,
    };
    match (accuracy.checked_mul(if_win), miss.checked_mul(if_lose)) {
        (Some(x), Some(y)) => x.checked_add(y),
        _ => None,
    }
}

/// What to spend on a move.
pub fn target_size(momentum: &Momentum, cfg: &LagArbConfig) -> (r: Option<Decimal>)
    ensures
        decimal_option(r) == target_wanted(*momentum, cfg@),
        is_product(
            cfg@.base_size_usdc,
            amount_or(momentum.ratio, 1),
            decimal_product(cfg@.base_size_usdc, amount_or(momentum.ratio, 1)),
        ),
        multiplies_exactly(cfg@.base_size_usdc, amount_or(momentum.ratio, 1)) ==> decimal_option(r)
            == Some(exact_target(amount_or(momentum.ratio, 1), cfg@)),
{
    let ratio = match momentum.ratio {
        Some(x) => x,
        None => Decimal::one(),
    };
    proof {
        let mant = cfg.base_size_usdc@.mant * ratio@.mant;
        assert(mant * pow10(0) == mant) by {
            lemma_pow10_28();
        }
    }
    match cfg.base_size_usdc.checked_mul(ratio) {
        Some(target) => Some(target.min(cfg.max_size_usdc)),
        None => None,
    }
}

/// The shares to aim for.
fn shares_target(price: Decimal, momentum: &Momentum, cfg: &LagArbConfig) -> (r: Option<Decimal>)
    ensures
        decimal_option(r) == shares_wanted(price@, *momentum, cfg@),
        r matches Some(q) ==> (units(price@) > 0 ==> {
            let target = target_wanted(*momentum, cfg@)->0;
            &&& units(target) <= units(cfg@.max_size_usdc)
            &&& close_to_quotient(target, price@, q@)
        }),
{
    let target = match target_size(momentum, cfg) {
        Some(x) => x,
        None => return None,
    };
    if price.is_positive() {
        target.checked_div(price)
    } else {
        Some(Decimal::zero())
    }
}

/// What is spent on shares of a target over a price stays within the cap of the
/// target but for rounding.
proof fn lemma_within_cap(target: Num, cap: Num, price: Num, wanted: Num, shares: Num, size: Num)
    requires
        units(target) <= units(cap),
        0 < units(price) <= one_unit(),
        close_to_quotient(target, price, wanted),
        0 < units(shares) <= units(wanted),
        close_to_product(price, shares, size),
    ensures
        within_cap(size, cap),
{
    let u = one_unit();
    let (t, c, p, q, s, z) = (
        units(target),
        units(cap),
        units(price),
        units(wanted),
        units(shares),
        units(size),
    );
    let f = q * p;
    let e = p * s;
    assert(0 < e <= f) by (nonlinear_arith)
        requires
            0 < s <= q,
            0 < p,
            e == p * s,
            f == q * p,
    ;
    // What the shares wanted come to.
    let g = grain(wanted);
    assert(u * (f - t * u) <= p * g) by (nonlinear_arith)
        requires
            u * magnitude(t * u - q * p) <= p * g,
            magnitude(t * u - q * p) >= q * p - t * u,
            f == q * p,
            u > 0,
    ;
    assert(f * (u - 1) <= (t + 1) * (u * u)) by {
        if q <= u {
            assert(f <= (t + 1) * u) by (nonlinear_arith)
                requires
                    u * (f - t * u) <= p * u,
                    p <= u,
                    u > 0,
            ;
            assert(f * (u - 1) <= (t + 1) * (u * u)) by (nonlinear_arith)
                requires
                    0 < f <= (t + 1) * u,
                    u > 1,
            ;
        } else {
            assert(f * (u - 1) <= (t + 1) * (u * u)) by (nonlinear_arith)
                requires
                    u * (f - t * u) <= p * q,
                    f == q * p,
                    u > 0,
            ;
        }
    }
    // What the shares bought come to.
    assert(z * (u - 1) <= e + u) by {
        if z < 0 {
            assert(z * (u - 1) <= 0) by (nonlinear_arith)
                requires
                    z < 0,
                    u > 1,
            ;
        } else {
            assert(z * (u - 1) == z * u - z) by (nonlinear_arith);
        }
    }
    assert(z * ((u - 1) * (u - 1)) <= (c + 2) * (u * u)) by (nonlinear_arith)
        requires
            z * (u - 1) <= e + u,
            e <= f,
            f * (u - 1) <= (t + 1) * (u * u),
            t <= c,
            u > 1,
    {
        assert(z * ((u - 1) * (u - 1)) == (z * (u - 1)) * (u - 1));
        assert((z * (u - 1)) * (u - 1) <= (e + u) * (u - 1));
        assert((e + u) * (u - 1) <= (f + u) * (u - 1));
        assert((f + u) * (u - 1) == f * (u - 1) + u * u - u);
        assert((t + 1) * (u * u) + u * u == (t + 2) * (u * u));
        assert((t + 2) * (u * u) <= (c + 2) * (u * u));
    }
}

/// The outcome to buy on a move, true for YES, or the reason to buy neither.
pub fn judge_move(
    momentum: &Momentum,
    price_yes: Decimal,
    price_no: Decimal,
    cfg: &LagArbConfig,
    block_yes: bool,
    block_no: bool,
) -> (r: Result<bool, &'static str>)
    ensures
        match r {
            Ok(up) => move_verdict(
                *momentum,
                price_yes@,
                price_no@,
                cfg@,
                block_yes,
                block_no,
            ) == Ok::<bool, Seq<char>>(up),
            Err(reason) => move_verdict(
                *momentum,
                price_yes@,
                price_no@,
                cfg@,
                block_yes,
                block_no,
            ) == Err::<bool, Seq<char>>(reason@),
        },
{
    if momentum.value.abs().less_than(cfg.momentum_threshold) {
        return Err(skip_reasons::NO_EDGE);
    }
    let up: bool = momentum.value.is_positive();
    let price = if up {
        price_yes
    } else {
        price_no
    };
    let dear = Decimal::new(7, 1);
    if price >= dear {
        return Err(skip_reasons::PRICE_OUT_OF_RANGE);
    }
    if (up && block_yes) || (!up && block_no) {
        return Err(skip_reasons::DEDUP);
    }
    Ok(up)
}

/// Takes the decision on what the exchange says of the product of a market.
fn decide_on_signal(
    base: Decision,
    a: (Decimal, Decimal),
    b: (Decimal, Decimal),
    signal: &CexSignal,
    cfg: &LagArbConfig,
    block_yes: bool,
    block_no: bool,
    Ghost(blocked): Ghost<spec_fn(Seq<char>) -> bool>,
) -> (r: Option<Decision>)
    requires
        base@.decision == DecisionKind::Skip,
        blocked("YES"@) == block_yes,
        blocked("NO"@) == block_no,
    ensures
        r matches Some(d) ==> (d@.decision == DecisionKind::Enter ==> {
            &&& within_cap(d@.size_usdc, cfg@.max_size_usdc)
            &&& if d@.direction == Some("YES"@) {
                is_on_offer(a.0@, a.1@, d@.size_usdc, d@.expected_pnl_usdc)
            } else {
                is_on_offer(b.0@, b.1@, d@.size_usdc, d@.expected_pnl_usdc)
            }
        }),
        decision_option(r) == (match signal.momentum {
            None => Some(
                (DecisionView { cex_spot: signal.spot, ..base@ }).because(
                    skip_reasons::NO_CEX_DATA@,
                ),
            ),
            Some(m) => lag_on_momentum(
                DecisionView { cex_spot: signal.spot, ..base@ },
                (a.0@, a.1@),
                (b.0@, b.1@),
                m,
                cfg@,
                blocked,
            ),
        }),
{
    let mut d = base;
    d.cex_spot = signal.spot;
    let m = match signal.momentum {
        Some(m) => m,
        None => return Some(d.skipped(skip_reasons::NO_CEX_DATA)),
    };
    d.cex_edge = Some(m.value);
    let up: bool = match judge_move(&m, a.0, b.0, cfg, block_yes, block_no) {
        Ok(up) => up,
        Err(reason) => return Some(d.skipped(reason)),
    };
    let (price, available) = if up {
        a
    } else {
        b
    };
    let direction: &str = if up {
        "YES"
    } else {
        "NO"
    };
    let wanted = match shares_target(price, &m, cfg) {
        Some(x) => x,
        None => return None,
    };
    let shares = wanted.min(available);
    if !shares.is_positive() {
        return Some(d.skipped(skip_reasons::LIQUIDITY_TOO_LOW));
    }
    match (profit_of(price, shares), price.checked_mul(shares)) {
        (Some(pnl), Some(size)) => {
            proof {
                lemma_units_whole(0);
                assert(whole(0) == 0);
                assert(units(Num { mant: 7, scale: 1 }) < one_unit()) by {
                    reveal_with_fuel(pow10, 30);
                }
                lemma_within_cap(
                    target_wanted(m, cfg@)->0,
                    cfg@.max_size_usdc,
                    price@,
                    wanted@,
                    shares@,
                    size@,
                );
                use_type_invariant(&price);
                use_type_invariant(&shares);
                reveal_strlit("YES");
                reveal_strlit("NO");
                assert("YES"@.len() != "NO"@.len());
                assert(is_on_offer(price@, available@, size@, pnl@)) by {
                    assert(decimal_product(price@, shares@) == Some(size@));
                }
            }
            let mut e = d.entered(direction, size, pnl);
            e.edge_per_unit = match m.magnitude {
                Some(x) => x,
                None => Decimal::zero(),
            };
            Some(e)
        },
        _ => None,
    }
}

/// Takes the decision on two books, once nothing about the market itself speaks
/// against it.
fn decide_on_books(
    base: Decision,
    market: &Market,
    book_a: &BookState,
    book_b: &BookState,
    signals: &StringMap<CexSignal>,
    cfg: &LagArbConfig,
    block_yes: bool,
    block_no: bool,
    Ghost(blocked): Ghost<spec_fn(Seq<char>) -> bool>,
) -> (r: Option<Decision>)
    requires
        base@.decision == DecisionKind::Skip,
        blocked("YES"@) == block_yes,
        blocked("NO"@) == block_no,
    ensures
        r matches Some(d) ==> entry_within_cap(d@, cfg@),
        decision_option(r) == lag_on_asks(
            base@,
            book_a@.ask(),
            book_b@.ask(),
            product_of_slug(market@.slug),
            signals@,
            cfg@,
            blocked,
        ),
{
    let a = match book_a.best_ask() {
        Some(l) => l,
        None => return Some(base.skipped(skip_reasons::LIQUIDITY_TOO_LOW)),
    };
    let b = match book_b.best_ask() {
        Some(l) => l,
        None => return Some(base.skipped(skip_reasons::LIQUIDITY_TOO_LOW)),
    };
    let sum_ask = match a.0.checked_add(b.0) {
        Some(s) => s,
        None => return None,
    };
    let mut d = base.noting_asks(a, b, sum_ask);
    let (low, high) = (cfg.min_price_yes, cfg.max_price_yes);
    if a.0 < low || a.0 > high || b.0 < low || b.0 > high {
        return Some(d.skipped(skip_reasons::PRICE_OUT_OF_RANGE));
    }
    let product = match product_id_from_slug(market.slug.as_str()) {
        Some(p) => p,
        None => return Some(d.skipped(skip_reasons::NO_CEX_DATA)),
    };
    d.cex_product = Some(product.to_string());
    match signals.get(product) {
        Some(signal) => decide_on_signal(
            d,
            a,
            b,
            signal,
            cfg,
            block_yes,
            block_no,
            Ghost(blocked),
        ),
        None => Some(d.skipped(skip_reasons::NO_CEX_DATA)),
    }
}

/// Whether the decision can be taken without overflow, whatever the time and the
/// entries.
pub fn is_lag_defined(
    market: &Market,
    book_a: &BookState,
    book_b: &BookState,
    signals: &StringMap<CexSignal>,
    cfg: &LagArbConfig,
) -> (r: bool)
    ensures
        r == lag_defined(market@, book_a@, book_b@, signals@, cfg@),
{
    if market.neg_risk {
        return true;
    }
    let base = Decision::blank("A", market, Timestamp::epoch());
    decide_on_books(
        base,
        market,
        book_a,
        book_b,
        signals,
        cfg,
        false,
        false,
        Ghost(|direction: Seq<char>| false),
    ).is_some()
}

/// The decision of the strategy at `now`, unless a figure in it overflows. An
/// entry is noted in `dedup`.
pub fn checked_evaluate_at(
    market: &Market,
    book_a: &BookState,
    book_b: &BookState,
    signals: &StringMap<CexSignal>,
    cfg: &LagArbConfig,
    dedup: &mut DedupState,
    now: Timestamp,
) -> (r: Option<Decision>)
    ensures
        decision_option(r) == lag_decision(
            market@,
            book_a@,
            book_b@,
            signals@,
            cfg@,
            old(dedup)@,
            now@,
        ),
        r matches Some(d) ==> entry_within_cap(d@, cfg@),
        match r {
            Some(d) => d@.timestamp == now@ && final(dedup)@ == entries_after(
                old(dedup)@,
                market@,
                d@,
            ),
            None => final(dedup)@ == old(dedup)@,
        },
{
    let base = Decision::blank("A", market, now);
    if market.neg_risk {
        return Some(base.skipped(skip_reasons::NEG_RISK));
    }
    let ttr: i64 = match base.ttr_seconds {
        Some(t) => t,
        None => -1,
    };
    if ttr < cfg.min_ttr_seconds || ttr > cfg.max_ttr_seconds {
        return Some(base.skipped(skip_reasons::TTR_TOO_LOW));
    }
    let ghost blocked = too_soon(dedup@, market@.condition_id, now@, cfg@);
    let id = market.condition_id.as_str();
    let block_yes: bool = !dedup.should_emit(id, "YES", now, cfg.dedup_window_s);
    let block_no: bool = !dedup.should_emit(id, "NO", now, cfg.dedup_window_s);
    let d = match decide_on_books(
        base,
        market,
        book_a,
        book_b,
        signals,
        cfg,
        block_yes,
        block_no,
        Ghost(blocked),
    ) {
        Some(d) => d,
        None => return None,
    };
    if d.decision == DecisionKind::Enter {
        if let Some(direction) = &d.direction {
            dedup.record(id, direction.as_str(), now);
        }
    }
    Some(d)
}

/// The decision of the strategy at `now`. An entry is noted in `dedup`.
pub fn evaluate_at(
    market: &Market,
    book_a: &BookState,
    book_b: &BookState,
    signals: &StringMap<CexSignal>,
    cfg: &LagArbConfig,
    dedup: &mut DedupState,
    now: Timestamp,
) -> (r: Decision)
    requires
        lag_decision(market@, book_a@, book_b@, signals@, cfg@, old(dedup)@, now@) is Some,
    ensures
        lag_decision(market@, book_a@, book_b@, signals@, cfg@, old(dedup)@, now@) == Some(r@),
        final(dedup)@ == entries_after(old(dedup)@, market@, r@),
        entry_within_cap(r@, cfg@),
        r@.timestamp == now@,
{
    checked_evaluate_at(market, book_a, book_b, signals, cfg, dedup, now).unwrap()
}

/// The decision of the strategy now. An entry is noted in `dedup`.
pub fn evaluate(
    market: &Market,
    book_a: &BookState,
    book_b: &BookState,
    signals: &StringMap<CexSignal>,
    cfg: &LagArbConfig,
    dedup: &mut DedupState,
) -> (r: Decision)
    requires
        lag_defined(market@, book_a@, book_b@, signals@, cfg@),
    ensures
        lag_decision(
            market@,
            book_a@,
            book_b@,
            signals@,
            cfg@,
            old(dedup)@,
            r@.timestamp,
        ) == Some(r@),
        final(dedup)@ == entries_after(old(dedup)@, market@, r@),
        entry_within_cap(r@, cfg@),
{
    let now = Timestamp::now();
    proof {
        lag_defined_at_any_time(market@, book_a@, book_b@, signals@, cfg@, dedup@, now@);
    }
    evaluate_at(market, book_a, book_b, signals, cfg, dedup, now)
}

/// Law: once the strategy entered a market, it does not enter it again in the
/// same direction before the window is over.
pub proof fn no_second_entry_within_window(
    market: MarketView,
    book_a: BookView,
    book_b: BookView,
    signals: Map<Seq<char>, CexSignal>,
    cfg: LagView,
    entries: Entries,
    first: DecisionView,
    now: int,
)
    requires
        first.decision == DecisionKind::Enter,
        seconds_between(first.timestamp, now) < cfg.dedup_window_s,
    ensures
        lag_decision(
            market,
            book_a,
            book_b,
            signals,
            cfg,
            entries_after(entries, market, first),
            now,
        ) matches Some(d) ==> !(d.decision == DecisionKind::Enter && d.direction
            == first.direction && first.direction is Some),
{
}

/// Law: an entry in one direction does not hold up one in the other, nor one in
/// another market.
pub proof fn entries_are_independent(
    entries: Entries,
    market: MarketView,
    first: DecisionView,
    market_id: Seq<char>,
    direction: Seq<char>,
    now: int,
    window_s: int,
)
    requires
        market_id != market.condition_id || Some(direction) != first.direction,
        first.decision == DecisionKind::Enter ==> first.direction is Some,
    ensures
        may_emit(entries_after(entries, market, first), market_id, direction, now, window_s)
            == may_emit(entries, market_id, direction, now, window_s),
{
}

/// Law: the strategy buys the outcome that the move points to, only on a move
/// that reaches the threshold, and only below seventy cents.
pub proof fn entry_follows_momentum(
    market: MarketView,
    book_a: BookView,
    book_b: BookView,
    signals: Map<Seq<char>, CexSignal>,
    cfg: LagView,
    entries: Entries,
    now: int,
)
    ensures
        lag_decision(market, book_a, book_b, signals, cfg, entries, now) matches Some(d) ==> (
        d.decision == DecisionKind::Enter ==> {
            &&& d.cex_edge matches Some(m) && !m.absolute().below(cfg.momentum_threshold)
            &&& d.direction == Some(
                if Double::nought().below(d.cex_edge->0) {
                    "YES"@
                } else {
                    "NO"@
                },
            )
            &&& units(
                if Double::nought().below(d.cex_edge->0) {
                    d.price_yes
                } else {
                    d.price_no
                },
            ) < units(Num { mant: 7, scale: 1 })
            &&& lag_price_in_range(d.price_yes, cfg)
            &&& lag_price_in_range(d.price_no, cfg)
            &&& !market.neg_risk
            &&& !lag_ttr_out_of_range(d.ttr_seconds, cfg)
        }),
{
    reveal_strlit("YES");
    reveal_strlit("NO");
    assert("YES"@.len() != "NO"@.len());
}

/// Law: the stronger a move, the more is spent on it, up to the cap, wherever the
/// base size times the strength of the move needs no rounding.
pub proof fn stronger_moves_spend_more(weaker: Num, stronger: Num, cfg: LagView)
    requires
        units(weaker) <= units(stronger),
        units(cfg.base_size_usdc) >= 0,
        representable(weaker),
        representable(stronger),
        representable(cfg.base_size_usdc),
        multiplies_exactly(cfg.base_size_usdc, weaker),
        multiplies_exactly(cfg.base_size_usdc, stronger),
    ensures
        units(exact_target(weaker, cfg)) <= units(exact_target(stronger, cfg)) <= units(
            cfg.max_size_usdc,
        ),
{
    let base = units(cfg.base_size_usdc);
    let (less, more) = (times(cfg.base_size_usdc, weaker), times(cfg.base_size_usdc, stronger));
    lemma_units_product(cfg.base_size_usdc, weaker);
    lemma_units_product(cfg.base_size_usdc, stronger);
    assert(base * units(weaker) <= base * units(stronger)) by (nonlinear_arith)
        requires
            base >= 0,
            units(weaker) <= units(stronger),
    ;
    assert(units(less) <= units(more));
}

/// Law: every decision to skip gives a reason, and no decision to enter does.
pub proof fn skips_have_reasons(
    market: MarketView,
    book_a: BookView,
    book_b: BookView,
    signals: Map<Seq<char>, CexSignal>,
    cfg: LagView,
    entries: Entries,
    now: int,
)
    ensures
        lag_decision(market, book_a, book_b, signals, cfg, entries, now) matches Some(d) ==> (
        d.decision == DecisionKind::Skip <==> d.skip_reason is Some),
{
}

/// What is spent is a price times shares: no more shares than there are at it, no more
/// than a target buys at it, and one or the other. The target is the full amount or the
/// cap, whichever is less.
pub open spec fn buys_at(price: Num, available: Num, full: Num, cap: Num, spent: Num) -> bool {
    exists|shares: Num, target: Num|
        {
            &&& #[trigger] decimal_product(price, shares) == Some(spent)
            &&& #[trigger] decimal_quotient(target, price) is Some
            &&& 0 < units(shares)
            &&& units(shares) <= units(available)
            &&& units(shares) <= units(decimal_quotient(target, price)->0)
            &&& shares == available || shares == decimal_quotient(target, price)->0
            &&& units(target) <= units(full)
            &&& units(target) <= units(cap)
            &&& target == full || target == cap
        }
}

/// Law: an entry buys from the book of the outcome that it names. It buys no more
/// shares than are on offer at the lowest ask of that outcome, and no more than the
/// target buys at that price; it buys one or the other. What it spends is that price
/// times these shares.
pub proof fn entry_buys_what_its_own_book_offers(
    market: MarketView,
    book_a: BookView,
    book_b: BookView,
    signals: Map<Seq<char>, CexSignal>,
    cfg: LagView,
    entries: Entries,
    now: int,
)
    ensures
        lag_decision(market, book_a, book_b, signals, cfg, entries, now) matches Some(d) ==> (
        d.decision == DecisionKind::Enter ==> {
            let (a, b) = (book_a.ask()->0, book_b.ask()->0);
            let m = signals[d.cex_product->0].momentum->0;
            let full = decimal_product(
                cfg.base_size_usdc,
                match m.ratio {
                    Some(x) => x@,
                    None => Num { mant: 1, scale: 0 },
                },
            )->0;
            &&& book_a.ask() is Some
            &&& book_b.ask() is Some
            &&& d.direction == Some("YES"@) || d.direction == Some("NO"@)
            &&& d.direction == Some("YES"@) ==> buys_at(
                a.0,
                a.1,
                full,
                cfg.max_size_usdc,
                d.size_usdc,
            )
            &&& d.direction == Some("NO"@) ==> buys_at(
                b.0,
                b.1,
                full,
                cfg.max_size_usdc,
                d.size_usdc,
            )
            &&& d.price_yes == a.0
            &&& d.size_yes_available == a.1
            &&& d.price_no == b.0
            &&& d.size_no_available == b.1
            &&& decimal_sum(a.0, b.0) == Some(d.sum_ask)
            &&& d.cex_product is Some
            &&& signals[d.cex_product->0].momentum is Some
            &&& d.cex_edge == Some(m.value)
            &&& d.cex_spot == signals[d.cex_product->0].spot
            &&& d.edge_per_unit == (match (signals[d.cex_product->0].momentum->0).magnitude {
                Some(x) => x@,
                None => Num { mant: 0, scale: 0 },
            })
        }),
{
    reveal_strlit("YES");
    reveal_strlit("NO");
    assert("YES"@.len() != "NO"@.len());
    if let Some(d) = lag_decision(market, book_a, book_b, signals, cfg, entries, now) {
        if d.decision == DecisionKind::Enter {
            let (a, b) = (book_a.ask()->0, book_b.ask()->0);
            let m = signals[d.cex_product->0].momentum->0;
            let (price, available) = if d.direction == Some("YES"@) {
                (a.0, a.1)
            } else {
                (b.0, b.1)
            };
            let target = target_wanted(m, cfg)->0;
            let wanted = decimal_quotient(target, price)->0;
            let shares = num_min(wanted, available);
            lemma_units_whole(0);
            assert(whole(0) == 0);
            assert(units(price) > 0);
            assert(decimal_product(price, shares) == Some(d.size_usdc));
            assert(decimal_quotient(target, price) is Some);
        }
    }
}

/// Law: for what it spends, an entry in NO goes by the NO book alone and one in YES by
/// the YES book alone: it is not above the lowest ask there times the size there, but
/// for one rounding of one unit or one part in `10^28`.
pub proof fn entry_spends_no_more_than_is_on_offer(d: DecisionView, cfg: LagView)
    requires
        d.decision == DecisionKind::Enter,
        entry_within_cap(d, cfg),
        units(d.price_yes) >= 0,
        units(d.price_no) >= 0,
    ensures
        ({
            let (spent, u) = (units(d.size_usdc), one_unit());
            let rounding = if spent > u {
                spent
            } else {
                u
            };
            &&& d.direction == Some("YES"@) ==> spent * u <= units(d.price_yes) * units(
                d.size_yes_available,
            ) + rounding
            &&& d.direction == Some("NO"@) ==> spent * u <= units(d.price_no) * units(
                d.size_no_available,
            ) + rounding
            &&& spent >= 0
        }),
{
    reveal_strlit("YES");
    reveal_strlit("NO");
    assert("YES"@.len() != "NO"@.len());
    let (price, available) = if d.direction == Some("YES"@) {
        (d.price_yes, d.size_yes_available)
    } else {
        (d.price_no, d.size_no_available)
    };
    let (size, pnl) = (d.size_usdc, d.expected_pnl_usdc);
    assert(is_on_offer(price, available, size, pnl));
    let shares = choose|shares: Num|
        {
            &&& #[trigger] decimal_product(price, shares) == Some(size)
            &&& product_facts(price, shares, Some(size))
            &&& representable(price)
            &&& representable(shares)
            &&& 0 < units(shares)
            &&& units(shares) <= units(available)
            &&& expected_profit(price, shares) == Some(pnl)
            &&& profit_adds_up(price, shares)
        };
    let (p, s, t) = (units(price), units(shares), units(available));
    assert(0 <= p * s <= p * t) by (nonlinear_arith)
        requires
            0 <= p,
            0 < s <= t,
    ;
}

/// Law: what an entry expects to make is what being right fifty-five times in a hundred
/// leaves: `(0.55 - price) * shares`. This is exact wherever it can be written down.
pub proof fn expected_profit_is_the_odds_less_the_price(price: Num, shares: Num, pnl: Num)
    requires
        profit_adds_up(price, shares),
        expected_profit(price, shares) == Some(pnl),
        representable(price),
        representable(shares),
        0 < units(price) < one_unit(),
        0 <= shares.mant,
        price.scale + shares.scale <= 26,
        55 * pow10(price.scale) * shares.mant <= max_mant(),
    ensures
        units(pnl) * (100 * one_unit()) == (55 * one_unit() - 100 * units(price)) * units(shares),
{
    let (p, ps, s, ss, u) = (price.mant, price.scale, shares.mant, shares.scale, one_unit());
    let (q, r, w) = (pow10(ps), pow10(28 - ps), pow10(28 - ss));
    let (g, h) = (pow10(28 - ps - ss), pow10(26 - ps - ss));
    lemma_pow10_28();
    lemma_units_whole(1);
    lemma_units_sign(price);
    lemma_units_negated(price);
    let accuracy = Num { mant: 55, scale: 2 };
    lemma_units_negated(accuracy);
    lemma_pow10_adds(ps, 28 - ps);
    lemma_pow10_positive(ps);
    lemma_pow10_positive(28 - ps);
    lemma_pow10_positive(26 - ps - ss);
    assert(g == 10 * pow10(27 - ps - ss) && pow10(27 - ps - ss) == 10 * h);
    assert(pow10(28) == 10 * pow10(27) && pow10(27) == 10 * pow10(26));
    assert(100 * units(accuracy) == 55 * u);
    assert(0 < p < q) by (nonlinear_arith)
        requires
            0 < p * r < u,
            q * r == u,
            r >= 1,
    ;
    let rest = q - p;
    assert(0 < rest * s * 55 + 1 && rest * s * 55 <= 55 * q * s && p * s * 45 <= 55 * q * s && 0
        <= p * s && 0 <= rest * s && rest * s <= 55 * q * s && p * s <= 55 * q * s)
        by (nonlinear_arith)
        requires
            0 < p < q,
            rest == q - p,
            0 <= s,
    ;
    let one = whole_num(1);
    let gain = decimal_difference(one, price);
    assert(q <= max_mant()) by (nonlinear_arith)
        requires
            q * r == u,
            r >= 1,
            q >= 1,
            u <= max_mant(),
    ;
    let n1 = Num { mant: rest, scale: ps };
    assert(units(n1) == u - units(price)) by (nonlinear_arith)
        requires
            units(n1) == rest * r,
            rest == q - p,
            q * r == u,
            units(price) == p * r,
    ;
    what_fits_is_exact(units(one) + units(negated(price)), u, n1, gain);
    let miss = decimal_difference(one, accuracy);
    let n2 = Num { mant: 45, scale: 2 };
    assert(100 * units(n2) == 45 * u);
    what_fits_is_exact(units(one) + units(negated(accuracy)), u, n2, miss);
    let d = u * u;
    assert(d >= 1) by (nonlinear_arith)
        requires
            d == u * u,
            u >= 1,
    ;
    // What is won, and what is lost.
    lemma_pow10_adds(28 - ps, 28 - ss);
    lemma_pow10_adds(28, 28 - ps - ss);
    let win = decimal_product(gain->0, shares);
    let n3 = Num { mant: rest * s, scale: ps + ss };
    lemma_regrouped(rest, r, s, w, g, u);
    what_fits_is_exact(units(gain->0) * units(shares), d, n3, win);
    let lose = decimal_product(negated(price), shares);
    let n4 = Num { mant: -(p * s), scale: ps + ss };
    lemma_regrouped(-p, r, s, w, g, u);
    assert((-p) * s == -(p * s)) by (nonlinear_arith);
    assert((-p) * r == -(p * r)) by (nonlinear_arith);
    what_fits_is_exact(units(negated(price)) * units(shares), d, n4, lose);
    // Both by their odds.
    let x = decimal_product(accuracy, win->0);
    let n5 = Num { mant: rest * s * 55, scale: ps + ss + 2 };
    assert(units(n5) * d == units(accuracy) * units(win->0) * u) by (nonlinear_arith)
        requires
            units(n5) == rest * s * 55 * h,
            100 * units(accuracy) == 55 * u,
            units(win->0) == rest * s * (100 * h),
            d == u * u,
    {
        assert(units(accuracy) * (rest * s * (100 * h)) * u == (100 * units(accuracy)) * (rest * s
            * h) * u);
        assert((55 * u) * (rest * s * h) * u == rest * s * 55 * h * (u * u));
    }
    what_fits_is_exact(units(accuracy) * units(win->0), d, n5, x);
    let y = decimal_product(miss->0, lose->0);
    let n6 = Num { mant: -(p * s * 45), scale: ps + ss + 2 };
    assert(units(n6) * d == units(miss->0) * units(lose->0) * u) by (nonlinear_arith)
        requires
            units(n6) == -(p * s * 45) * h,
            100 * units(miss->0) == 45 * u,
            units(lose->0) == -(p * s) * (100 * h),
            d == u * u,
    {
        assert(units(miss->0) * (-(p * s) * (100 * h)) * u == (100 * units(miss->0)) * (-(p * s)
            * h) * u);
        assert((45 * u) * (-(p * s) * h) * u == -(p * s * 45) * h * (u * u));
    }
    what_fits_is_exact(units(miss->0) * units(lose->0), d, n6, y);
    let total = rest * s * 55 - p * s * 45;
    let n7 = Num { mant: total, scale: ps + ss + 2 };
    assert(units(n7) == units(x->0) + units(y->0)) by (nonlinear_arith)
        requires
            units(n7) == total * h,
            total == rest * s * 55 - p * s * 45,
            units(x->0) == rest * s * 55 * h,
            units(y->0) == -(p * s * 45) * h,
    ;
    what_fits_is_exact(units(x->0) + units(y->0), u, n7, Some(pnl));
    let k = 55 * q - 100 * p;
    assert(total == k * s) by (nonlinear_arith)
        requires
            total == rest * s * 55 - p * s * 45,
            rest == q - p,
            k == 55 * q - 100 * p,
    ;
    assert(55 * u - 100 * units(price) == k * r) by (nonlinear_arith)
        requires
            q * r == u,
            units(price) == p * r,
            k == 55 * q - 100 * p,
    ;
    assert((k * r) * (s * w) == (k * s) * (u * g)) by (nonlinear_arith)
        requires
            r * w == u * g,
    ;
    assert((k * s) * (u * g) == ((k * s) * h) * (100 * u)) by (nonlinear_arith)
        requires
            g == 100 * h,
    ;
}

/// Factors taken in another order.
proof fn lemma_regrouped(k: int, r: int, s: int, w: int, g: int, u: int)
    requires
        r * w == u * g,
    ensures
        ((k * s) * g) * (u * u) == (k * r) * (s * w) * u,
{
    assert((k * r) * (s * w) == (k * s) * (r * w)) by (nonlinear_arith);
    assert((k * s) * (u * g) * u == ((k * s) * g) * (u * u)) by (nonlinear_arith);
}

/// Law: the strategy enters just where the market has no negative risk and resolves
/// within its bounds, both books have a lowest ask within the price bounds, the exchange
/// price moved by the threshold or more, the outcome that the move points to is below
/// seventy cents and was not entered within the window, and there is something to buy
/// at what is to be spent.
pub proof fn enters_just_on_a_move_that_qualifies(
    market: MarketView,
    book_a: BookView,
    book_b: BookView,
    signals: Map<Seq<char>, CexSignal>,
    cfg: LagView,
    entries: Entries,
    now: int,
)
    ensures
        lag_decision(market, book_a, book_b, signals, cfg, entries, now) matches Some(d) ==> {
            let (a, b) = (book_a.ask()->0, book_b.ask()->0);
            let ttr = match market.end_date {
                Some(end) => seconds_between(now, end),
                None => -1,
            };
            let product = product_of_slug(market.slug)->0;
            let m = signals[product].momentum->0;
            let up = Double::nought().below(m.value);
            let (price, available) = if up {
                a
            } else {
                b
            };
            let key = (
                market.condition_id,
                if up {
                    "YES"@
                } else {
                    "NO"@
                },
            );
            let full = decimal_product(
                cfg.base_size_usdc,
                match m.ratio {
                    Some(x) => x@,
                    None => Num { mant: 1, scale: 0 },
                },
            )->0;
            let target = if units(full) > units(cfg.max_size_usdc) {
                cfg.max_size_usdc
            } else {
                full
            };
            d.decision == DecisionKind::Enter <==> {
                &&& !market.neg_risk
                &&& cfg.min_ttr_seconds <= ttr
                &&& ttr <= cfg.max_ttr_seconds
                &&& book_a.ask() is Some
                &&& book_b.ask() is Some
                &&& units(cfg.min_price_yes) <= units(a.0)
                &&& units(a.0) <= units(cfg.max_price_yes)
                &&& units(cfg.min_price_yes) <= units(b.0)
                &&& units(b.0) <= units(cfg.max_price_yes)
                &&& product_of_slug(market.slug) is Some
                &&& signals.contains_key(product)
                &&& signals[product].momentum is Some
                &&& !m.value.absolute().below(cfg.momentum_threshold)
                &&& 10 * units(price) < 7 * one_unit()
                &&& !(entries.contains_key(key) && seconds_between(entries[key], now)
                    < cfg.dedup_window_s)
                &&& units(price) > 0
                &&& units(decimal_quotient(target, price)->0) > 0
                &&& units(available) > 0
            }
        },
{
    lemma_seventy_cents();
    lemma_units_whole(0);
    assert(whole(0) == 0);
    reveal_strlit("YES");
    reveal_strlit("NO");
    assert("YES"@.len() != "NO"@.len());
}

/// Seventy cents, by their value.
proof fn lemma_seventy_cents()
    ensures
        10 * units(Num { mant: 7, scale: 1 }) == 7 * one_unit(),
{
    reveal_with_fuel(pow10, 30);
}

/// Law: a decision to skip names the first thing that speaks against an entry, and buys
/// nothing.
pub proof fn skips_name_what_speaks_against_an_entry(
    market: MarketView,
    book_a: BookView,
    book_b: BookView,
    signals: Map<Seq<char>, CexSignal>,
    cfg: LagView,
    entries: Entries,
    now: int,
)
    ensures
        lag_decision(market, book_a, book_b, signals, cfg, entries, now) matches Some(d) ==> {
            let (a, b) = (book_a.ask()->0, book_b.ask()->0);
            let ttr = match market.end_date {
                Some(end) => seconds_between(now, end),
                None => -1,
            };
            let timely = cfg.min_ttr_seconds <= ttr && ttr <= cfg.max_ttr_seconds;
            let asked = book_a.ask() is Some && book_b.ask() is Some;
            let in_bounds = units(cfg.min_price_yes) <= units(a.0) && units(a.0) <= units(
                cfg.max_price_yes,
            ) && units(cfg.min_price_yes) <= units(b.0) && units(b.0) <= units(cfg.max_price_yes);
            let product = product_of_slug(market.slug)->0;
            let heard = product_of_slug(market.slug) is Some && signals.contains_key(product)
                && signals[product].momentum is Some;
            let m = signals[product].momentum->0;
            let up = Double::nought().below(m.value);
            let price = if up {
                a.0
            } else {
                b.0
            };
            let key = (
                market.condition_id,
                if up {
                    "YES"@
                } else {
                    "NO"@
                },
            );
            let strong = !m.value.absolute().below(cfg.momentum_threshold);
            let cheap = 10 * units(price) < 7 * one_unit();
            let repeated = entries.contains_key(key) && seconds_between(entries[key], now)
                < cfg.dedup_window_s;
            &&& market.neg_risk ==> d.skip_reason == Some("neg_risk"@)
            &&& !market.neg_risk && !timely ==> d.skip_reason == Some("ttr_too_low"@)
            &&& !market.neg_risk && timely ==> {
                &&& !asked ==> d.skip_reason == Some("liquidity_too_low"@)
                &&& asked && !in_bounds ==> d.skip_reason == Some("price_out_of_range"@)
                &&& asked && in_bounds && !heard ==> d.skip_reason == Some("no_cex_data"@)
                &&& asked && in_bounds && heard ==> {
                    &&& d.cex_product == Some(product)
                    &&& d.cex_edge == Some(m.value)
                    &&& !strong ==> d.skip_reason == Some("no_edge"@)
                    &&& strong && !cheap ==> d.skip_reason == Some("price_out_of_range"@)
                    &&& strong && cheap && repeated ==> d.skip_reason == Some("dedup"@)
                    &&& strong && cheap && !repeated && d.decision == DecisionKind::Skip
                        ==> d.skip_reason == Some("liquidity_too_low"@)
                }
                &&& asked ==> {
                    &&& d.price_yes == a.0
                    &&& d.size_yes_available == a.1
                    &&& d.price_no == b.0
                    &&& d.size_no_available == b.1
                    &&& decimal_sum(a.0, b.0) == Some(d.sum_ask)
                }
            }
            &&& market.neg_risk || !timely || !asked ==> {
                &&& d.price_yes.mant == 0
                &&& d.price_no.mant == 0
                &&& d.size_yes_available.mant == 0
                &&& d.size_no_available.mant == 0
                &&& d.sum_ask.mant == 0
            }
            &&& d.decision == DecisionKind::Skip ==> d.direction is None && d.size_usdc.mant == 0
                && d.expected_pnl_usdc.mant == 0 && d.edge_per_unit.mant == 0
            &&& d.decision == DecisionKind::Enter ==> d.skip_reason is None
        },
{
    lemma_seventy_cents();
    reveal_strlit("YES");
    reveal_strlit("NO");
    assert("YES"@.len() != "NO"@.len());
}

/// Law: a decision is about its own market, at its own time, and signed by the strategy.
pub proof fn decisions_are_about_their_market(
    market: MarketView,
    book_a: BookView,
    book_b: BookView,
    signals: Map<Seq<char>, CexSignal>,
    cfg: LagView,
    entries: Entries,
    now: int,
)
    ensures
        lag_decision(market, book_a, book_b, signals, cfg, entries, now) matches Some(d) ==> {
            &&& d.strategy == "A"@
            &&& d.timestamp == now
            &&& d.market_id == market.condition_id
            &&& d.market_slug == market.slug
            &&& d.yes_token_id == market.yes_token_id
            &&& d.no_token_id == market.no_token_id
            &&& d.neg_risk == market.neg_risk
            &&& match market.end_date {
                Some(end) => d.ttr_seconds == Some(seconds_between(now, end)),
                None => d.ttr_seconds is None,
            }
        },
{
}

/// Law: what the exchange says is noted as far as it was looked at: the product that the
/// slug names, its last price and its move. Nothing is noted where the market or its books
/// speak against an entry already, and nothing of a model ever is.
pub proof fn decisions_note_what_was_heard(
    market: MarketView,
    book_a: BookView,
    book_b: BookView,
    signals: Map<Seq<char>, CexSignal>,
    cfg: LagView,
    entries: Entries,
    now: int,
)
    ensures
        lag_decision(market, book_a, book_b, signals, cfg, entries, now) matches Some(d) ==> {
            let (a, b) = (book_a.ask()->0, book_b.ask()->0);
            let ttr = match market.end_date {
                Some(end) => seconds_between(now, end),
                None => -1,
            };
            let listened = !market.neg_risk && cfg.min_ttr_seconds <= ttr && ttr
                <= cfg.max_ttr_seconds && book_a.ask() is Some && book_b.ask() is Some && units(
                cfg.min_price_yes,
            ) <= units(a.0) && units(a.0) <= units(cfg.max_price_yes) && units(cfg.min_price_yes)
                <= units(b.0) && units(b.0) <= units(cfg.max_price_yes);
            let product = product_of_slug(market.slug);
            let followed = listened && product is Some && signals.contains_key(product->0);
            let signal = signals[product->0];
            &&& listened ==> d.cex_product == product
            &&& !listened ==> d.cex_product is None
            &&& followed ==> d.cex_spot == signal.spot
            &&& !followed ==> d.cex_spot is None
            &&& followed && signal.momentum is Some ==> d.cex_edge == Some(
                (signal.momentum->0).value,
            )
            &&& !followed || signal.momentum is None ==> d.cex_edge is None
            &&& d.cex_strike is None
            &&& d.cex_sigma_annual is None
            &&& d.p_model_yes is None
        },
{
}

/// Law: after an entry, just its market and its direction are noted, at the time of the
/// decision; after a skip, nothing is.
pub proof fn entries_are_noted_and_skips_are_not(
    entries: Entries,
    market: MarketView,
    d: DecisionView,
    key: (Seq<char>, Seq<char>),
)
    ensures
        d.decision == DecisionKind::Skip ==> entries_after(entries, market, d) == entries,
        d.decision == DecisionKind::Enter ==> {
            let after = entries_after(entries, market, d);
            &&& after.contains_key((market.condition_id, d.direction->0))
            &&& after[(market.condition_id, d.direction->0)] == d.timestamp
            &&& key != (market.condition_id, d.direction->0) ==> after.contains_key(key)
                == entries.contains_key(key) && after[key] == entries[key]
        },
{
}

/// Law: a stronger move never spends less, rounded or not, and no move spends more than
/// the cap.
pub proof fn a_stronger_move_never_spends_less(
    weaker: Momentum,
    stronger: Momentum,
    cfg: LagView,
    less: Num,
    more: Num,
)
    requires
        weaker.ratio is Some,
        stronger.ratio is Some,
        units(weaker.ratio->0@) <= units(stronger.ratio->0@),
        units(cfg.base_size_usdc) >= 0,
        is_product(
            cfg.base_size_usdc,
            weaker.ratio->0@,
            decimal_product(cfg.base_size_usdc, weaker.ratio->0@),
        ),
        is_product(
            cfg.base_size_usdc,
            stronger.ratio->0@,
            decimal_product(cfg.base_size_usdc, stronger.ratio->0@),
        ),
        target_wanted(weaker, cfg) == Some(less),
        target_wanted(stronger, cfg) == Some(more),
    ensures
        units(less) <= units(more),
        units(more) <= units(cfg.max_size_usdc),
        less == cfg.max_size_usdc || Some(less) == decimal_product(
            cfg.base_size_usdc,
            weaker.ratio->0@,
        ),
{
    let (base, u) = (units(cfg.base_size_usdc), one_unit());
    let (x, y) = (units(weaker.ratio->0@), units(stronger.ratio->0@));
    let d = u * u;
    assert(d >= 1) by (nonlinear_arith)
        requires
            d == u * u,
            u >= 1,
    ;
    assert(base * x <= base * y) by (nonlinear_arith)
        requires
            base >= 0,
            x <= y,
    ;
    rounding_keeps_the_order(
        base * x,
        base * y,
        d,
        decimal_product(cfg.base_size_usdc, weaker.ratio->0@)->0,
        decimal_product(cfg.base_size_usdc, stronger.ratio->0@)->0,
    );
}

/// Law: a market that was added follows the product that its slug names, and one whose
/// slug names none changes nothing; no other market is touched.
pub proof fn products_are_those_of_the_slugs(
    products: Map<Seq<char>, Seq<char>>,
    markets: Seq<MarketView>,
    market: MarketView,
    other: Seq<char>,
)
    ensures
        product_of_slug(market.slug) matches Some(p) ==> products_with(
            products,
            market,
        ).contains_key(market.condition_id) && products_with(products, market)[market.condition_id]
            == p,
        product_of_slug(market.slug) is None ==> products_with(products, market) == products,
        other != market.condition_id ==> products_with(products, market).contains_key(other)
            == products.contains_key(other) && products_with(products, market)[other]
            == products[other],
        products_with_all(products, Seq::empty()) == products,
        products_with_all(products, markets.push(market)) == products_with(
            products_with_all(products, markets),
            market,
        ),
{
    assert(markets.push(market).drop_last() =~= markets);
}

/// Some number of shares, no more than there are, costs or makes more at a price than can
/// be written down.
pub open spec fn overflows_at(price: Num, available: Num) -> bool {
    exists|shares: Num|
        {
            &&& #[trigger] decimal_product(price, shares) is None || expected_profit(
                price,
                shares,
            ) is None
            &&& 0 < units(shares)
            &&& units(shares) <= units(available)
        }
}

/// Law: there is no decision only where a figure overflows.
pub proof fn only_figures_overflow(
    market: MarketView,
    book_a: BookView,
    book_b: BookView,
    signals: Map<Seq<char>, CexSignal>,
    cfg: LagView,
    entries: Entries,
    now: int,
)
    ensures
        lag_decision(market, book_a, book_b, signals, cfg, entries, now) is None ==> {
            let (a, b) = (book_a.ask()->0, book_b.ask()->0);
            let m = signals[product_of_slug(market.slug)->0].momentum->0;
            let (price, available) = if Double::nought().below(m.value) {
                a
            } else {
                b
            };
            let full = decimal_product(
                cfg.base_size_usdc,
                match m.ratio {
                    Some(x) => x@,
                    None => Num { mant: 1, scale: 0 },
                },
            );
            &&& !market.neg_risk
            &&& book_a.ask() is Some
            &&& book_b.ask() is Some
            &&& {
                ||| decimal_sum(a.0, b.0) is None
                ||| full is None
                ||| decimal_quotient(full->0, price) is None
                ||| decimal_quotient(cfg.max_size_usdc, price) is None
                ||| overflows_at(price, available)
            }
        },
{
    reveal_strlit("YES");
    reveal_strlit("NO");
    assert("YES"@.len() != "NO"@.len());
    if lag_decision(market, book_a, book_b, signals, cfg, entries, now) is None {
        let (a, b) = (book_a.ask()->0, book_b.ask()->0);
        let m = signals[product_of_slug(market.slug)->0].momentum->0;
        let (price, available) = if Double::nought().below(m.value) {
            a
        } else {
            b
        };
        if decimal_sum(a.0, b.0) is Some && shares_wanted(price, m, cfg) is Some {
            let shares = num_min(shares_wanted(price, m, cfg)->0, available);
            lemma_units_whole(0);
            assert(whole(0) == 0);
            assert(decimal_product(price, shares) is None || expected_profit(price, shares) is None);
            assert(overflows_at(price, available));
        }
    }
}

/// Strategy A over the markets that it was told of.
pub struct LagArbStrategy {
    cfg: LagArbConfig,
    index: MarketIndex,
    product_required: StringMap<String>,
    dedup: DedupState,
}

/// The products by market after a market was added.
pub open spec fn products_with(
    products: Map<Seq<char>, Seq<char>>,
    market: MarketView,
) -> Map<Seq<char>, Seq<char>> {
    match product_of_slug(market.slug) {
        Some(p) => products.insert(market.condition_id, p),
        None => products,
    }
}

/// The products by market after a list of markets was added.
pub open spec fn products_with_all(
    products: Map<Seq<char>, Seq<char>>,
    markets: Seq<MarketView>,
) -> Map<Seq<char>, Seq<char>>
    decreases markets.len(),
{
    if markets.len() == 0 {
        products
    } else {
        products_with(products_with_all(products, markets.drop_last()), markets.last())
    }
}

impl LagArbStrategy {
    /// When to enter and with how much.
    pub closed spec fn config(self) -> LagView {
        self.cfg@
    }

    /// The markets.
    pub closed spec fn index(self) -> IndexView {
        self.index@
    }

    /// The product that each market follows.
    pub closed spec fn products(self) -> Map<Seq<char>, Seq<char>> {
        crate::market_index::text_map(self.product_required@)
    }

    /// The last entry of each market and direction.
    pub closed spec fn entries(self) -> Entries {
        self.dedup@
    }

    /// The last entry of each market and direction.
    pub fn dedup(&self) -> (r: &DedupState)
        ensures
            r@ == self.entries(),
    {
        &self.dedup
    }

    /// A strategy without markets.
    pub fn new(cfg: LagArbConfig) -> (r: LagArbStrategy)
        ensures
            r.config() == cfg@,
            r.index() == IndexView::empty(),
            r.products() == Map::<Seq<char>, Seq<char>>::empty(),
            r.entries() == Entries::empty(),
    {
        let r = LagArbStrategy {
            cfg,
            index: MarketIndex::new(),
            product_required: StringMap::new(),
            dedup: DedupState::default(),
        };
        assert(r.products() =~= Map::<Seq<char>, Seq<char>>::empty());
        r
    }

    /// Adds a market.
    pub fn register_market(&mut self, market: Market)
        ensures
            final(self).config() == old(self).config(),
            final(self).index() == old(self).index().with(market@),
            final(self).products() == products_with(old(self).products(), market@),
            final(self).entries() == old(self).entries(),
    {
        if let Some(product) = product_id_from_slug(market.slug.as_str()) {
            self.product_required.insert(market.condition_id.clone(), product.to_string());
        }
        assert(self.products() =~= products_with(old(self).products(), market@));
        self.index.register(market);
    }

    /// The market of an asset.
    pub fn market_id_for_asset(&self, asset_id: &str) -> (r: Option<&str>)
        ensures
            match r {
                Some(id) => self.index().market_of(asset_id@) == Some(id@),
                None => self.index().market_of(asset_id@) is None,
            },
    {
        self.index.market_id_for_asset(asset_id)
    }

    /// Whether a market can be evaluated without overflow, whatever the time and the
    /// entries.
    pub fn is_market_defined(
        &self,
        market_id: &str,
        books: &StringMap<BookState>,
        signals: &StringMap<CexSignal>,
    ) -> (r: bool)
        ensures
            r == lag_market_defined(self.index(), self.config(), market_id@, books@, signals@),
    {
        match self.index.find(market_id) {
            None => true,
            Some((market, a, b)) => match (books.get(a), books.get(b)) {
                (Some(book_a), Some(book_b)) => is_lag_defined(
                    market,
                    book_a,
                    book_b,
                    signals,
                    &self.cfg,
                ),
                _ => true,
            },
        }
    }

    /// The decision on a market now, if it and both its books are known.
    pub fn evaluate_market(
        &mut self,
        market_id: &str,
        books: &StringMap<BookState>,
        signals: &StringMap<CexSignal>,
    ) -> (r: Option<Decision>)
        requires
            lag_market_defined(
                old(self).index(),
                old(self).config(),
                market_id@,
                books@,
                signals@,
            ),
        ensures
            final(self).config() == old(self).config(),
            final(self).index() == old(self).index(),
            final(self).products() == old(self).products(),
            match (r, market_books(old(self).index(), market_id@, books@)) {
                (Some(d), Some((market, book_a, book_b))) => {
                    &&& lag_decision(
                        market,
                        book_a,
                        book_b,
                        signals@,
                        old(self).config(),
                        old(self).entries(),
                        d@.timestamp,
                    ) == Some(d@)
                    &&& final(self).entries() == entries_after(old(self).entries(), market, d@)
                    &&& entry_within_cap(d@, old(self).config())
                },
                (None, None) => final(self).entries() == old(self).entries(),
                _ => false,
            },
    {
        match self.index.find(market_id) {
            None => None,
            Some((market, a, b)) => match (books.get(a), books.get(b)) {
                (Some(book_a), Some(book_b)) => Some(
                    evaluate(market, book_a, book_b, signals, &self.cfg, &mut self.dedup),
                ),
                _ => None,
            },
        }
    }
}

impl LagArbStrategy {
    /// [`LagArbStrategy::evaluate_market`], unless a figure in the decision
    /// overflows at the time at which it is taken; then nothing changes.
    pub fn try_evaluate_market(
        &mut self,
        market_id: &str,
        books: &StringMap<BookState>,
        signals: &StringMap<CexSignal>,
    ) -> (r: Checked<Option<Decision>>)
        ensures
            final(self).config() == old(self).config(),
            final(self).index() == old(self).index(),
            final(self).products() == old(self).products(),
            match (r, market_books(old(self).index(), market_id@, books@)) {
                (Checked::Overflow, _) => final(self).entries() == old(self).entries() && exists|
                    now: int,
                |
                    in_range(now) && #[trigger] lag_market_overflows(
                        old(self).index(),
                        old(self).config(),
                        old(self).entries(),
                        market_id@,
                        books@,
                        signals@,
                        now,
                    ),
                (Checked::Value(Some(d)), Some((market, book_a, book_b))) => {
                    &&& lag_decision(
                        market,
                        book_a,
                        book_b,
                        signals@,
                        old(self).config(),
                        old(self).entries(),
                        d@.timestamp,
                    ) == Some(d@)
                    &&& final(self).entries() == entries_after(old(self).entries(), market, d@)
                    &&& entry_within_cap(d@, old(self).config())
                },
                (Checked::Value(None), None) => final(self).entries() == old(self).entries(),
                _ => false,
            },
    {
        if self.is_market_defined(market_id, books, signals) {
            return Checked::Value(self.evaluate_market(market_id, books, signals));
        }
        let now = Timestamp::now();
        match self.index.find(market_id) {
            None => Checked::Value(None),
            Some((market, a, b)) => match (books.get(a), books.get(b)) {
                (Some(book_a), Some(book_b)) => match checked_evaluate_at(
                    market,
                    book_a,
                    book_b,
                    signals,
                    &self.cfg,
                    &mut self.dedup,
                    now,
                ) {
                    Some(d) => Checked::Value(Some(d)),
                    None => {
                        assert(lag_market_overflows(
                            old(self).index(),
                            old(self).config(),
                            old(self).entries(),
                            market_id@,
                            books@,
                            signals@,
                            now@,
                        ));
                        Checked::Overflow
                    },
                },
                _ => Checked::Value(None),
            },
        }
    }
}

/// A figure in the decision on a market at `now` overflows.
pub open spec fn lag_market_overflows(
    index: IndexView,
    cfg: LagView,
    entries: Entries,
    market_id: Seq<char>,
    books: Map<Seq<char>, BookState>,
    signals: Map<Seq<char>, CexSignal>,
    now: int,
) -> bool {
    market_books(index, market_id, books) matches Some((market, book_a, book_b)) && lag_decision(
        market,
        book_a,
        book_b,
        signals,
        cfg,
        entries,
        now,
    ) is None
}

/// A market can be evaluated without overflow, whatever the time and the entries.
pub open spec fn lag_market_defined(
    index: IndexView,
    cfg: LagView,
    market_id: Seq<char>,
    books: Map<Seq<char>, BookState>,
    signals: Map<Seq<char>, CexSignal>,
) -> bool {
    match market_books(index, market_id, books) {
        Some((market, book_a, book_b)) => lag_defined(market, book_a, book_b, signals, cfg),
        None => true,
    }
}

/// Law: what the strategy expects to make is worked out from being right fifty-five times
/// in a hundred: the gain on the shares then, and their price lost otherwise.
pub proof fn expected_profit_weighs_gain_and_loss(price: Num, shares: Num)
    ensures
        ({
            let one = Num { mant: 1, scale: 0 };
            let right = Num { mant: 55, scale: 2 };
            let gain = decimal_difference(one, price);
            let wrong = decimal_difference(one, right);
            let won = decimal_product(gain->0, shares);
            let lost = decimal_product(Num { mant: -price.mant, scale: price.scale }, shares);
            let x = decimal_product(right, won->0);
            let y = decimal_product(wrong->0, lost->0);
            let all = gain is Some && wrong is Some && won is Some && lost is Some && x is Some && y
                is Some;
            &&& all ==> expected_profit(price, shares) == decimal_sum(x->0, y->0)
            &&& !all ==> expected_profit(price, shares) is None
        }),
{
}

/// Law: the outcome to buy is the one that the move points to: YES on a move up and NO on
/// any other. A move below the threshold, an outcome at seventy cents or more and an entry
/// in that direction that was made too recently each speak against it, in this order.
pub proof fn moves_are_judged_in_order(
    momentum: Momentum,
    price_yes: Num,
    price_no: Num,
    cfg: LagView,
    block_yes: bool,
    block_no: bool,
)
    ensures
        ({
            let v = move_verdict(momentum, price_yes, price_no, cfg, block_yes, block_no);
            let up = Double::nought().below(momentum.value);
            let weak = momentum.value.absolute().below(cfg.momentum_threshold);
            let dear = 10 * units(
                if up {
                    price_yes
                } else {
                    price_no
                },
            ) >= 7 * one_unit();
            let blocked = if up {
                block_yes
            } else {
                block_no
            };
            &&& weak ==> v == Err::<bool, Seq<char>>("no_edge"@)
            &&& !weak && dear ==> v == Err::<bool, Seq<char>>("price_out_of_range"@)
            &&& !weak && !dear && blocked ==> v == Err::<bool, Seq<char>>("dedup"@)
            &&& !weak && !dear && !blocked ==> v == Ok::<bool, Seq<char>>(up)
        }),
{
    lemma_seventy_cents();
}

/// Law: an entry may follow another one in the same market and direction once so many
/// seconds have passed; where there was none, at any time.
pub proof fn entries_wait_out_the_window(
    entries: Entries,
    market_id: Seq<char>,
    direction: Seq<char>,
    now: int,
    window_s: int,
)
    ensures
        ({
            let key = (market_id, direction);
            &&& !entries.contains_key(key) ==> may_emit(
                entries,
                market_id,
                direction,
                now,
                window_s,
            )
            &&& entries.contains_key(key) ==> (may_emit(
                entries,
                market_id,
                direction,
                now,
                window_s,
            ) <==> seconds_between(entries[key], now) >= window_s)
        }),
{
}

/// Law: unless told otherwise the strategy spends ten dollars on a move of five basis
/// points and no more than fifty on any, on markets that resolve in half a minute to ten
/// minutes, at prices from three to ninety-seven cents, by the move over half a minute, and
/// waits a minute before it enters again.
pub proof fn defaults_are_these()
    ensures
        default_lag().momentum_threshold.bits == 0x3f40_624d_d2f1_a9fc,
        units(default_lag().base_size_usdc) == 10 * one_unit(),
        units(default_lag().max_size_usdc) == 50 * one_unit(),
        default_lag().min_ttr_seconds == 30,
        default_lag().max_ttr_seconds == 600,
        100 * units(default_lag().min_price_yes) == 3 * one_unit(),
        100 * units(default_lag().max_price_yes) == 97 * one_unit(),
        default_lag().momentum_window_s == 30,
        default_lag().dedup_window_s == 60,
{
    reveal_with_fuel(pow10, 30);
    lemma_units_whole(10);
    lemma_units_whole(50);
}

/// Law: the decision on a market can be taken at every time just where it can be taken at
/// one at which the market is in its time and nothing was entered before.
pub proof fn defined_is_defined_in_its_time(
    market: MarketView,
    book_a: BookView,
    book_b: BookView,
    signals: Map<Seq<char>, CexSignal>,
    cfg: LagView,
    now: int,
    end: int,
)
    requires
        market.end_date == Some(end),
        cfg.min_ttr_seconds <= seconds_between(now, end) <= cfg.max_ttr_seconds,
    ensures
        lag_defined(market, book_a, book_b, signals, cfg) <==> lag_decision(
            market,
            book_a,
            book_b,
            signals,
            cfg,
            Entries::empty(),
            now,
        ) is Some,
{
}

/// Law: a market is decided on by its own two books, and figures overflow there or nowhere.
pub proof fn markets_are_decided_on_by_their_own_books(
    index: IndexView,
    cfg: LagView,
    entries: Entries,
    market_id: Seq<char>,
    books: Map<Seq<char>, BookState>,
    signals: Map<Seq<char>, CexSignal>,
    now: int,
)
    ensures
        ({
            let (yes, no) = index.market_pairs[market_id];
            if index.markets.contains_key(market_id) && index.market_pairs.contains_key(market_id)
                && books.contains_key(yes) && books.contains_key(no) {
                &&& lag_market_overflows(
                    index,
                    cfg,
                    entries,
                    market_id,
                    books,
                    signals,
                    now,
                ) == (lag_decision(
                    index.markets[market_id],
                    books[yes]@,
                    books[no]@,
                    signals,
                    cfg,
                    entries,
                    now,
                ) is None)
                &&& lag_market_defined(index, cfg, market_id, books, signals) == lag_defined(
                    index.markets[market_id],
                    books[yes]@,
                    books[no]@,
                    signals,
                    cfg,
                )
            } else {
                &&& !lag_market_overflows(index, cfg, entries, market_id, books, signals, now)
                &&& lag_market_defined(index, cfg, market_id, books, signals)
            }
        }),
{
}

} // verus!
