//! Live trading: who signs, what may be risked, and what became of a trade.
//!
//! A trade goes in three steps. [`LiveExecutor::begin_single_leg`] or
//! [`LiveExecutor::begin_arb`] holds it against the limits, the order is sent,
//! and [`LiveExecutor::finish_single_leg`] or [`LiveExecutor::finish_arb`] books
//! it, filled or not.

use crate::decimal::{
    Decimal, Num, decimal_display, decimal_sum, is_sum, lemma_pow10_28, one_unit, representable,
    units, what_fits_is_exact, whole_num,
};
use crate::string_map::StringMap;
use crate::text::{
    all_hex_digits, every_repetition_comes_off, is_hex_digit, number_digits, number_text, same_text,
    strip_prefixes, text_option, trim, trimmed, trimming_takes_the_whitespace_off, whitespace,
    without_prefixes,
};
use crate::timestamp::{Timestamp, in_range, later, lemma_before_the_range};
use vstd::prelude::*;
use vstd::string::StringExecFns;
use vstd::utf8::encode_utf8;

verus! {

/// Where orders go.
pub const CLOB_HOST: &'static str = "https://clob.polymarket.com";

/// What may be risked.
#[derive(Debug, Clone, Copy)]
pub struct SafetyLimits {
    pub max_total_capital_usdc: Decimal,
    pub max_per_trade_usdc: Decimal,
    pub max_trades_per_hour: u32,
}

/// What [`SafetyLimits`] say.
pub struct LimitsView {
    pub max_total_capital_usdc: Num,
    pub max_per_trade_usdc: Num,
    pub max_trades_per_hour: int,
}

impl View for SafetyLimits {
    type V = LimitsView;

    open spec fn view(&self) -> LimitsView {
        LimitsView {
            max_total_capital_usdc: self.max_total_capital_usdc@,
            max_per_trade_usdc: self.max_per_trade_usdc@,
            max_trades_per_hour: self.max_trades_per_hour as int,
        }
    }
}

impl Default for SafetyLimits {
    /// Thirty dollars in all, three per trade, twelve trades per hour.
    fn default() -> (r: SafetyLimits)
        ensures
            r@ == (LimitsView {
                max_total_capital_usdc: whole_num(30),
                max_per_trade_usdc: whole_num(3),
                max_trades_per_hour: 12,
            }),
    {
        SafetyLimits {
            max_total_capital_usdc: Decimal::new(30, 0),
            max_per_trade_usdc: Decimal::new(3, 0),
            max_trades_per_hour: 12,
        }
    }
}

/// What was risked so far.
#[derive(Debug)]
pub struct SafetyState {
    capital_used_usdc: Decimal,
    recent_trade_times: Vec<Timestamp>,
}

/// What a [`SafetyState`] says.
#[verifier::ext_equal]
pub struct SafetyView {
    pub capital_used_usdc: Num,
    pub recent_trade_times: Seq<int>,
}

/// The views of a list of instants.
pub open spec fn instants(v: Seq<Timestamp>) -> Seq<int> {
    v.map_values(|t: Timestamp| t@)
}

/// `t` lies within the hour before `now`.
pub open spec fn within_hour(t: int, now: int) -> bool {
    t > later(now, -3600)
}

/// The instants of a list that lie within the hour before `now`, in order.
pub open spec fn recent_times(times: Seq<int>, now: int) -> Seq<int>
    decreases times.len(),
{
    if times.len() == 0 {
        times
    } else if within_hour(times.last(), now) {
        recent_times(times.drop_last(), now).push(times.last())
    } else {
        recent_times(times.drop_last(), now)
    }
}

impl SafetyView {
    /// Nothing was risked.
    pub open spec fn fresh() -> SafetyView {
        SafetyView { capital_used_usdc: whole_num(0), recent_trade_times: Seq::empty() }
    }

    /// The state without the trades of more than an hour ago.
    pub open spec fn pruned(self, now: int) -> SafetyView {
        SafetyView {
            capital_used_usdc: self.capital_used_usdc,
            recent_trade_times: recent_times(self.recent_trade_times, now),
        }
    }

    /// The state after a trade of `size` at `now`.
    pub open spec fn after_trade(self, size: Num, now: int) -> SafetyView {
        SafetyView {
            capital_used_usdc: decimal_sum(self.capital_used_usdc, size)->0,
            recent_trade_times: self.recent_trade_times.push(now),
        }
    }
}

impl View for SafetyState {
    type V = SafetyView;

    closed spec fn view(&self) -> SafetyView {
        SafetyView {
            capital_used_usdc: self.capital_used_usdc@,
            recent_trade_times: instants(self.recent_trade_times@),
        }
    }
}

impl Default for SafetyState {
    fn default() -> (r: SafetyState)
        ensures
            r@ == SafetyView::fresh(),
    {
        let r = SafetyState { capital_used_usdc: Decimal::zero(), recent_trade_times: Vec::new() };
        assert(r@ =~= SafetyView::fresh());
        r
    }
}

impl SafetyState {
    /// What was spent.
    pub fn capital_used_usdc(&self) -> (r: Decimal)
        ensures
            r@ == self@.capital_used_usdc,
    {
        self.capital_used_usdc
    }

    /// How many trades are kept.
    pub fn trade_count(&self) -> (r: usize)
        ensures
            r == self@.recent_trade_times.len(),
    {
        self.recent_trade_times.len()
    }

    /// Notes the time of a trade.
    pub fn note_time(&mut self, time: Timestamp)
        ensures
            final(self)@ == (SafetyView {
                recent_trade_times: old(self)@.recent_trade_times.push(time@),
                ..old(self)@
            }),
    {
        self.recent_trade_times.push(time);
        assert(self@.recent_trade_times =~= old(self)@.recent_trade_times.push(time@));
    }

    /// Forgets the trades of more than an hour before `now`.
    pub fn prune_old_at(&mut self, now: Timestamp)
        ensures
            final(self)@ == old(self)@.pruned(now@),
    {
        let mut kept: Vec<Timestamp> = Vec::new();
        let mut i: usize = 0;
        let ghost all = instants(self.recent_trade_times@);
        proof {
            assert(all.take(0) =~= Seq::empty());
            assert(instants(kept@) =~= Seq::empty());
        }
        while i < self.recent_trade_times.len()
            invariant
                i <= self.recent_trade_times@.len(),
                all == instants(self.recent_trade_times@),
                instants(kept@) == recent_times(all.take(i as int), now@),
            decreases self.recent_trade_times@.len() - i,
        {
            let t = self.recent_trade_times[i];
            let ghost before = kept@;
            proof {
                assert(all.take(i + 1).drop_last() =~= all.take(i as int));
                assert(all.take(i + 1).last() == t@);
            }
            if is_within_hour(&t, &now) {
                kept.push(t);
                assert(instants(kept@) =~= instants(before).push(t@));
            }
            i += 1;
        }
        proof {
            assert(all.take(self.recent_trade_times@.len() as int) =~= all);
        }
        self.recent_trade_times = kept;
    }

    /// Forgets the trades of more than an hour ago.
    pub fn prune_old(&mut self)
        ensures
            exists|now: int| in_range(now) && final(self)@ == #[trigger] old(self)@.pruned(now),
    {
        let now = Timestamp::now();
        self.prune_old_at(now);
    }

    /// How many trades there were in the hour before `now`; older ones are
    /// forgotten.
    pub fn recent_trades_count_at(&mut self, now: Timestamp) -> (r: usize)
        ensures
            final(self)@ == old(self)@.pruned(now@),
            r == final(self)@.recent_trade_times.len(),
    {
        self.prune_old_at(now);
        self.recent_trade_times.len()
    }

    /// Books a trade.
    fn book(&mut self, size: Decimal, now: Timestamp)
        requires
            decimal_sum(old(self)@.capital_used_usdc, size@) is Some,
        ensures
            final(self)@ == old(self)@.after_trade(size@, now@),
            is_sum(
                old(self)@.capital_used_usdc,
                size@,
                decimal_sum(old(self)@.capital_used_usdc, size@),
            ),
    {
        self.note_time(now);
        self.capital_used_usdc = self.capital_used_usdc.checked_add(size).unwrap();
    }
}

fn is_within_hour(t: &Timestamp, now: &Timestamp) -> (r: bool)
    ensures
        r == within_hour(t@, now@),
{
    // An hour before `now` is out of range only at the start of time, where it is
    // earlier than any `t`.
    match now.plus_seconds(-3600) {
        Some(cutoff) => cutoff.is_before(t),
        None => {
            proof {
                use_type_invariant(t);
                use_type_invariant(now);
                lemma_before_the_range(t@, now@, 3600);
            }
            true
        },
    }
}

/// Whose signature an order carries.
#[derive(Debug, Clone, Copy, PartialEq, Eq, Structural)]
pub enum SignatureType {
    /// The key's own account.
    Eoa,
    /// A proxy wallet.
    Proxy,
    /// A Safe.
    GnosisSafe,
}

/// The 20 bytes of an account that a text writes.
pub uninterp spec fn address_bytes(text: Seq<char>) -> Option<Seq<u8>>;

/// Why the wallet variables cannot be used.
#[derive(Debug)]
pub enum WalletError {
    /// The signature type is none of the three.
    SignatureType(String),
    /// The funder is no account.
    Funder(String),
}

/// What a [`WalletError`] says.
pub enum WalletErrorView {
    SignatureType(Seq<char>),
    Funder(Seq<char>),
}

impl View for WalletError {
    type V = WalletErrorView;

    open spec fn view(&self) -> WalletErrorView {
        match self {
            WalletError::SignatureType(s) => WalletErrorView::SignatureType(s@),
            WalletError::Funder(s) => WalletErrorView::Funder(s@),
        }
    }
}

impl WalletError {
    /// The error in words.
    pub fn message(&self) -> (r: String)
        ensures
            r@ == (match self@ {
                WalletErrorView::SignatureType(s) => "SIGNATURE_TYPE invalido: "@ + s,
                WalletErrorView::Funder(s) => "FUNDER_ADDRESS no es Address valida: "@ + s,
            }),
    {
        match self {
            WalletError::SignatureType(s) => {
                let mut m = "SIGNATURE_TYPE invalido: ".to_string();
                m.append(s.as_str());
                m
            },
            WalletError::Funder(s) => {
                let mut m = "FUNDER_ADDRESS no es Address valida: ".to_string();
                m.append(s.as_str());
                m
            },
        }
    }
}

/// The signature type that a text names.
pub open spec fn signature_type_of(text: Seq<char>) -> Option<SignatureType> {
    if text == "0"@ {
        Some(SignatureType::Eoa)
    } else if text == "1"@ {
        Some(SignatureType::Proxy)
    } else if text == "2"@ {
        Some(SignatureType::GnosisSafe)
    } else {
        None
    }
}

/// The wallet of a signature type, written without whitespace around it, and of a
/// funder, if one is set: its text, and the account that was read out of it.
pub open spec fn wallet_with(kind: Seq<char>, funder: Option<(Seq<char>, Option<Seq<u8>>)>) -> Result<
    (Option<Seq<u8>>, SignatureType),
    WalletErrorView,
> {
    match (signature_type_of(kind), funder) {
        (None, _) => Err(WalletErrorView::SignatureType(kind)),
        (Some(t), None) => Ok((None, t)),
        (Some(t), Some((_, Some(account)))) => Ok((Some(account), t)),
        (Some(_), Some((text, None))) => Err(WalletErrorView::Funder(text)),
    }
}

/// The wallet that the variables give: the funder, if there is one, and the
/// signature type, which is the key's own account unless set.
pub open spec fn wallet_of(vars: Map<Seq<char>, String>) -> Result<
    (Option<Seq<u8>>, SignatureType),
    WalletErrorView,
> {
    let kind = trimmed(
        if vars.contains_key("SIGNATURE_TYPE"@) {
            vars["SIGNATURE_TYPE"@]@
        } else {
            "0"@
        },
    );
    let funder = if vars.contains_key("FUNDER_ADDRESS"@) && trimmed(
        vars["FUNDER_ADDRESS"@]@,
    ).len() > 0 {
        Some(
            (vars["FUNDER_ADDRESS"@]@, address_bytes(trimmed(vars["FUNDER_ADDRESS"@]@))),
        )
    } else {
        None
    };
    wallet_with(kind, funder)
}

/// The view of an optional account.
pub open spec fn account_option(a: Option<Vec<u8>>) -> Option<Seq<u8>> {
    match a {
        Some(v) => Some(v@),
        None => None,
    }
}

/// The view of a wallet that was read, or of why it cannot be used.
pub open spec fn wallet_view(r: Result<(Option<Vec<u8>>, SignatureType), WalletError>) -> Result<
    (Option<Seq<u8>>, SignatureType),
    WalletErrorView,
> {
    match r {
        Ok(w) => Ok((account_option(w.0), w.1)),
        Err(e) => Err(e@),
    }
}

/// The wallet of a signature type and of a funder.
pub fn wallet_from(kind: &str, funder: Option<(&str, Option<Vec<u8>>)>) -> (r: Result<
    (Option<Vec<u8>>, SignatureType),
    WalletError,
>)
    ensures
        wallet_view(r) == wallet_with(
            kind@,
            match funder {
                Some(f) => Some((f.0@, account_option(f.1))),
                None => None,
            },
        ),
{
    let signature_type = if same_text(kind, "0") {
        SignatureType::Eoa
    } else if same_text(kind, "1") {
        SignatureType::Proxy
    } else if same_text(kind, "2") {
        SignatureType::GnosisSafe
    } else {
        return Err(WalletError::SignatureType(kind.to_string()));
    };
    match funder {
        None => Ok((None, signature_type)),
        Some((_, Some(account))) => Ok((Some(account), signature_type)),
        Some((text, None)) => Err(WalletError::Funder(text.to_string())),
    }
}

/// Reads the wallet off the variables.
pub fn parse_funder_config(vars: &StringMap<String>) -> (r: Result<
    (Option<Vec<u8>>, SignatureType),
    WalletError,
>)
    ensures
        wallet_view(r) == wallet_of(vars@),
        r matches Ok(w) ==> (w.0 matches Some(a) ==> a@.len() == 20),
{
    let kind: &str = match vars.get("SIGNATURE_TYPE") {
        Some(s) => trim(s.as_str()),
        None => trim("0"),
    };
    match vars.get("FUNDER_ADDRESS") {
        Some(s) => {
            let t = trim(s.as_str());
            if t.is_empty() {
                wallet_from(kind, None)
            } else {
                wallet_from(kind, Some((s.as_str(), read_address(t))))
            }
        },
        None => wallet_from(kind, None),
    }
}

/// Why a private key cannot be used.
#[derive(Debug, Clone, Copy, PartialEq, Eq, Structural)]
pub enum KeyError {
    /// It does not have 64 bytes.
    Length,
    /// It has 64 bytes, not all of them hexadecimal digits.
    NotHex,
}

impl KeyError {
    /// The error in words.
    pub fn message(self) -> (r: &'static str)
        ensures
            r@ == (match self {
                KeyError::Length =>
                    "PRIVATE_KEY debe ser 64 hex chars (opcionalmente prefijada 0x)"@,
                KeyError::NotHex => "PRIVATE_KEY contiene caracter no-hex"@,
            }),
    {
        match self {
            KeyError::Length => "PRIVATE_KEY debe ser 64 hex chars (opcionalmente prefijada 0x)",
            KeyError::NotHex => "PRIVATE_KEY contiene caracter no-hex",
        }
    }
}

/// A private key without the space around it and the prefix before it.
pub open spec fn bare_key(raw: Seq<char>) -> Seq<char> {
    without_prefixes(trimmed(raw), "0x"@)
}

/// The private key that a text holds: 64 hexadecimal digits, bare or after `0x`.
pub open spec fn key_of(raw: Seq<char>) -> Result<Seq<char>, KeyError> {
    bare_key_of(bare_key(raw))
}

/// The private key that a bare text is: 64 hexadecimal digits.
pub open spec fn bare_key_of(key: Seq<char>) -> Result<Seq<char>, KeyError> {
    if encode_utf8(key).len() != 64 {
        Err(KeyError::Length)
    } else if !(forall|i: int| 0 <= i < key.len() ==> is_hex_digit(#[trigger] key[i])) {
        Err(KeyError::NotHex)
    } else {
        Ok(key)
    }
}

/// Reads a private key.
pub fn check_private_key(raw: &str) -> (r: Result<String, KeyError>)
    ensures
        match r {
            Ok(k) => key_of(raw@) == Ok::<Seq<char>, KeyError>(k@) && k@.len() == 64,
            Err(e) => key_of(raw@) == Err::<Seq<char>, KeyError>(e),
        },
{
    check_bare_key(strip_prefixes(trim(raw), "0x"))
}

/// Reads a bare private key.
pub fn check_bare_key(key: String) -> (r: Result<String, KeyError>)
    ensures
        match r {
            Ok(k) => bare_key_of(key@) == Ok::<Seq<char>, KeyError>(k@) && k@.len() == 64,
            Err(e) => bare_key_of(key@) == Err::<Seq<char>, KeyError>(e),
        },
{
    let text: &str = key.as_str();
    if text.as_bytes().len() != 64 {
        return Err(KeyError::Length);
    }
    if !all_hex_digits(text) {
        return Err(KeyError::NotHex);
    }
    proof {
        broadcast use vstd::string::group_string_axioms;

        assert forall|i: int| 0 <= i < text@.len() implies (#[trigger] text@[i] as nat) < 128 by {
            assert(is_hex_digit(text@[i]));
        }
        assert(vstd::utf8::is_ascii_chars(text@));
        assert(text.is_ascii());
    }
    Ok(key)
}

/// One order of a trade.
#[derive(Debug)]
pub struct ArbLegOrder {
    pub token_id: String,
    pub side: ArbSide,
    pub size_usdc: Decimal,
}

/// Which way an order goes.
#[derive(Debug, Clone, Copy, PartialEq, Eq, Structural)]
pub enum ArbSide {
    Buy,
    Sell,
}

/// What became of the two legs of a trade.
#[derive(Debug, Clone, Copy, PartialEq, Eq, Structural)]
pub enum ArbStatus {
    BothFilled,
    OnlyAFilled,
    OnlyBFilled,
    BothFailed,
}

/// What became of a trade.
#[derive(Debug)]
pub struct ArbTradeResult {
    pub timestamp: Timestamp,
    pub market_id: String,
    pub total_usdc: Decimal,
    pub order_id_a: Option<String>,
    pub order_id_b: Option<String>,
    pub error_a: Option<String>,
    pub error_b: Option<String>,
    pub status: ArbStatus,
}

/// What an [`ArbTradeResult`] says.
pub struct TradeView {
    pub timestamp: int,
    pub market_id: Seq<char>,
    pub total_usdc: Num,
    pub order_id_a: Option<Seq<char>>,
    pub order_id_b: Option<Seq<char>>,
    pub error_a: Option<Seq<char>>,
    pub error_b: Option<Seq<char>>,
    pub status: ArbStatus,
}

impl View for ArbTradeResult {
    type V = TradeView;

    open spec fn view(&self) -> TradeView {
        TradeView {
            timestamp: self.timestamp@,
            market_id: self.market_id@,
            total_usdc: self.total_usdc@,
            order_id_a: text_option(self.order_id_a),
            order_id_b: text_option(self.order_id_b),
            error_a: text_option(self.error_a),
            error_b: text_option(self.error_b),
            status: self.status,
        }
    }
}

/// What became of an order: the id of one that was filled, or the error.
pub type OrderOutcome = Result<String, String>;

/// The id of an order that was filled.
pub open spec fn order_id(o: OrderOutcome) -> Option<Seq<char>> {
    match o {
        Ok(id) => Some(id@),
        Err(_) => None,
    }
}

/// The error of an order that was not.
pub open spec fn order_error(o: OrderOutcome) -> Option<Seq<char>> {
    match o {
        Ok(_) => None,
        Err(e) => Some(e@),
    }
}

/// What became of two legs, by whether each was filled.
pub open spec fn arb_status(a: bool, b: bool) -> ArbStatus {
    if a && b {
        ArbStatus::BothFilled
    } else if a {
        ArbStatus::OnlyAFilled
    } else if b {
        ArbStatus::OnlyBFilled
    } else {
        ArbStatus::BothFailed
    }
}

/// Why a trade is refused.
#[derive(Debug, Clone, Copy)]
#[allow(inconsistent_fields)]
pub enum Refusal {
    /// The trade is larger than one may be.
    TooLarge { size: Decimal, max: Decimal },
    /// With the trade, more would be spent than may be.
    Capital { used: Decimal, size: Decimal, max: Decimal },
    /// There were as many trades in the last hour as there may be.
    RateLimit { recent: usize, max: u32 },
}

/// What a [`Refusal`] says.
#[allow(inconsistent_fields)]
pub enum RefusalView {
    TooLarge { size: Num, max: Num },
    Capital { used: Num, size: Num, max: Num },
    RateLimit { recent: int, max: int },
}

impl View for Refusal {
    type V = RefusalView;

    open spec fn view(&self) -> RefusalView {
        match self {
            Refusal::TooLarge { size, max } => RefusalView::TooLarge { size: size@, max: max@ },
            Refusal::Capital { used, size, max } => RefusalView::Capital {
                used: used@,
                size: size@,
                max: max@,
            },
            Refusal::RateLimit { recent, max } => RefusalView::RateLimit {
                recent: *recent as int,
                max: *max as int,
            },
        }
    }
}

impl Refusal {
    /// The refusal in words.
    pub fn message(&self) -> (r: String)
        ensures
            r@ == (match self@ {
                RefusalView::TooLarge { size, max } => "size "@ + decimal_display(size)
                    + " > max_per_trade "@ + decimal_display(max),
                RefusalView::Capital { used, size, max } => "capital used "@ + decimal_display(used)
                    + " + new "@ + decimal_display(size) + " > max "@ + decimal_display(max),
                RefusalView::RateLimit { recent, max } => "rate limit: "@ + number_digits(recent)
                    + " trades/h >= max "@ + number_digits(max),
            }),
    {
        match self {
            Refusal::TooLarge { size, max } => {
                let mut m = "size ".to_string();
                m.append(size.to_text().as_str());
                m.append(" > max_per_trade ");
                m.append(max.to_text().as_str());
                m
            },
            Refusal::Capital { used, size, max } => {
                let mut m = "capital used ".to_string();
                m.append(used.to_text().as_str());
                m.append(" + new ");
                m.append(size.to_text().as_str());
                m.append(" > max ");
                m.append(max.to_text().as_str());
                m
            },
            Refusal::RateLimit { recent, max } => {
                let mut m = "rate limit: ".to_string();
                m.append(number_text(*recent as u64).as_str());
                m.append(" trades/h >= max ");
                m.append(number_text(*max as u64).as_str());
                m
            },
        }
    }
}

/// The verdict on a trade of `size` at `now`: it may not be larger than one may
/// be, nor bring what is spent above the total, nor be one too many in the hour.
pub open spec fn verdict(limits: LimitsView, state: SafetyView, size: Num, now: int) -> Result<
    (),
    RefusalView,
> {
    let recent = state.pruned(now).recent_trade_times.len() as int;
    if units(size) > units(limits.max_per_trade_usdc) {
        Err(RefusalView::TooLarge { size, max: limits.max_per_trade_usdc })
    } else if units(decimal_sum(state.capital_used_usdc, size)->0) > units(
        limits.max_total_capital_usdc,
    ) {
        Err(
            RefusalView::Capital {
                used: state.capital_used_usdc,
                size,
                max: limits.max_total_capital_usdc,
            },
        )
    } else if recent >= limits.max_trades_per_hour {
        Err(RefusalView::RateLimit { recent, max: limits.max_trades_per_hour })
    } else {
        Ok(())
    }
}

/// The state after the verdict on a trade: old trades are forgotten when they are
/// counted.
pub open spec fn state_after_verdict(
    limits: LimitsView,
    state: SafetyView,
    size: Num,
    now: int,
) -> SafetyView {
    match verdict(limits, state, size, now) {
        Err(RefusalView::TooLarge { .. }) => state,
        Err(RefusalView::Capital { .. }) => state,
        _ => state.pruned(now),
    }
}

/// The verdict on a trade can be given without overflow.
pub open spec fn verdict_defined(limits: LimitsView, state: SafetyView, size: Num) -> bool {
    units(size) > units(limits.max_per_trade_usdc) || decimal_sum(
        state.capital_used_usdc,
        size,
    ) is Some
}

/// The view of a verdict.
pub open spec fn verdict_view(r: Result<(), Refusal>) -> Result<(), RefusalView> {
    match r {
        Ok(_) => Ok(()),
        Err(e) => Err(e@),
    }
}

/// Signs for a wallet, within limits.
#[derive(Debug)]
pub struct LiveExecutor {
    private_key_hex: String,
    funder: Option<Vec<u8>>,
    signature_type: SignatureType,
    limits: SafetyLimits,
    state: SafetyState,
}

/// Why an executor cannot be made.
#[derive(Debug)]
pub enum SetupError {
    Key(KeyError),
    Wallet(WalletError),
}

/// What may be spent of what a trade takes, or that a figure overflows.
#[derive(Debug, Clone, Copy)]
pub enum Admission {
    /// The trade may go ahead with this total.
    Admitted(Decimal),
    Refused(Refusal),
    /// A figure overflows.
    Overflow,
}

impl LiveExecutor {
    /// What may be risked.
    pub closed spec fn limits(self) -> LimitsView {
        self.limits@
    }

    /// What was risked so far.
    pub closed spec fn state(self) -> SafetyView {
        self.state@
    }

    /// The private key, bare.
    pub closed spec fn key(self) -> Seq<char> {
        self.private_key_hex@
    }

    /// The wallet.
    pub closed spec fn wallet(self) -> (Option<Seq<u8>>, SignatureType) {
        (account_option(self.funder), self.signature_type)
    }

    /// An executor that risked nothing yet, for the key in `private_key_hex` and
    /// the wallet that the variables give. Whether the exchange takes them is for
    /// the exchange to say.
    pub fn init(
        private_key_hex: &str,
        vars: &StringMap<String>,
        limits: SafetyLimits,
    ) -> (r: Result<LiveExecutor, SetupError>)
        ensures
            match r {
                Ok(x) => {
                    &&& key_of(private_key_hex@) == Ok::<Seq<char>, KeyError>(x.key())
                    &&& wallet_of(vars@) == Ok::<
                        (Option<Seq<u8>>, SignatureType),
                        WalletErrorView,
                    >(x.wallet())
                    &&& x.limits() == limits@
                    &&& x.state() == SafetyView::fresh()
                },
                Err(SetupError::Key(e)) => key_of(private_key_hex@) == Err::<Seq<char>, KeyError>(
                    e,
                ),
                Err(SetupError::Wallet(e)) => key_of(private_key_hex@) is Ok && wallet_of(vars@)
                    == Err::<(Option<Seq<u8>>, SignatureType), WalletErrorView>(e@),
            },
    {
        let key = match check_private_key(private_key_hex) {
            Ok(k) => k,
            Err(e) => return Err(SetupError::Key(e)),
        };
        match parse_funder_config(vars) {
            Ok((funder, signature_type)) => Ok(
                LiveExecutor {
                    private_key_hex: key,
                    funder,
                    signature_type,
                    limits,
                    state: SafetyState::default(),
                },
            ),
            Err(e) => Err(SetupError::Wallet(e)),
        }
    }

    /// The private key, bare.
    pub fn private_key_hex(&self) -> (r: &str)
        ensures
            r@ == self.key(),
    {
        self.private_key_hex.as_str()
    }

    /// The funder, if the wallet has one.
    pub fn funder(&self) -> (r: Option<&Vec<u8>>)
        ensures
            match r {
                Some(a) => self.wallet().0 == Some(a@),
                None => self.wallet().0 is None,
            },
    {
        match &self.funder {
            Some(a) => Some(a),
            None => None,
        }
    }

    /// The signature type of the wallet.
    pub fn signature_type(&self) -> (r: SignatureType)
        ensures
            r == self.wallet().1,
    {
        self.signature_type
    }

    /// Whether the verdict on a trade can be given without overflow.
    pub fn is_verdict_defined(&self, size_usdc: Decimal) -> (r: bool)
        ensures
            r == verdict_defined(self.limits(), self.state(), size_usdc@),
    {
        size_usdc > self.limits.max_per_trade_usdc || self.state.capital_used_usdc.checked_add(
            size_usdc,
        ).is_some()
    }

    /// Holds a trade of `size_usdc` at `now` against the limits.
    pub fn validate_at(&mut self, size_usdc: Decimal, now: Timestamp) -> (r: Result<(), Refusal>)
        requires
            verdict_defined(old(self).limits(), old(self).state(), size_usdc@),
        ensures
            verdict_view(r) == verdict(old(self).limits(), old(self).state(), size_usdc@, now@),
            final(self).state() == state_after_verdict(
                old(self).limits(),
                old(self).state(),
                size_usdc@,
                now@,
            ),
            final(self).limits() == old(self).limits(),
            final(self).key() == old(self).key(),
            final(self).wallet() == old(self).wallet(),
    {
        if size_usdc > self.limits.max_per_trade_usdc {
            return Err(
                Refusal::TooLarge { size: size_usdc, max: self.limits.max_per_trade_usdc },
            );
        }
        let used = self.state.capital_used_usdc;
        let total = used.checked_add(size_usdc).unwrap();
        if total > self.limits.max_total_capital_usdc {
            return Err(
                Refusal::Capital {
                    used,
                    size: size_usdc,
                    max: self.limits.max_total_capital_usdc,
                },
            );
        }
        let recent: usize = self.state.recent_trades_count_at(now);
        if recent as u64 >= self.limits.max_trades_per_hour as u64 {
            return Err(
                Refusal::RateLimit { recent, max: self.limits.max_trades_per_hour },
            );
        }
        Ok(())
    }

    /// Holds a trade of `size_usdc` against the limits.
    pub fn validate(&mut self, size_usdc: Decimal) -> (r: Result<(), Refusal>)
        requires
            verdict_defined(old(self).limits(), old(self).state(), size_usdc@),
        ensures
            exists|now: int|
                in_range(now) && verdict_view(r) == #[trigger] verdict(
                    old(self).limits(),
                    old(self).state(),
                    size_usdc@,
                    now,
                ) && final(self).state() == state_after_verdict(
                    old(self).limits(),
                    old(self).state(),
                    size_usdc@,
                    now,
                ),
            final(self).limits() == old(self).limits(),
            final(self).key() == old(self).key(),
            final(self).wallet() == old(self).wallet(),
    {
        let now = Timestamp::now();
        self.validate_at(size_usdc, now)
    }

    /// Holds a trade of `total` against the limits, where no figure overflows.
    fn consider(&mut self, total: Decimal) -> (r: Admission)
        ensures
            admission_holds(
                r,
                Some(total@),
                old(self).limits(),
                old(self).state(),
                final(self).state(),
            ),
            final(self).limits() == old(self).limits(),
            final(self).key() == old(self).key(),
            final(self).wallet() == old(self).wallet(),
    {
        if !self.is_verdict_defined(total) {
            return Admission::Overflow;
        }
        match self.validate(total) {
            Ok(_) => Admission::Admitted(total),
            Err(e) => Admission::Refused(e),
        }
    }

    /// Holds a directional trade against the limits.
    pub fn begin_single_leg(&mut self, leg: &ArbLegOrder) -> (r: Admission)
        ensures
            admission_holds(
                r,
                Some(leg.size_usdc@),
                old(self).limits(),
                old(self).state(),
                final(self).state(),
            ),
            final(self).limits() == old(self).limits(),
            final(self).key() == old(self).key(),
            final(self).wallet() == old(self).wallet(),
    {
        self.consider(leg.size_usdc)
    }

    /// Holds a trade of two legs against the limits.
    pub fn begin_arb(&mut self, leg_a: &ArbLegOrder, leg_b: &ArbLegOrder) -> (r: Admission)
        ensures
            admission_holds(
                r,
                decimal_sum(leg_a.size_usdc@, leg_b.size_usdc@),
                old(self).limits(),
                old(self).state(),
                final(self).state(),
            ),
            final(self).limits() == old(self).limits(),
            final(self).key() == old(self).key(),
            final(self).wallet() == old(self).wallet(),
    {
        match leg_a.size_usdc.checked_add(leg_b.size_usdc) {
            Some(total) => self.consider(total),
            None => Admission::Overflow,
        }
    }

    /// Whether a trade can be booked without overflow.
    pub fn can_book(&self, total: Decimal) -> (r: bool)
        ensures
            r == decimal_sum(self.state().capital_used_usdc, total@) is Some,
    {
        self.state.capital_used_usdc.checked_add(total).is_some()
    }

    /// Books a directional trade at `booked`, filled or not, and says at `now`
    /// what became of it.
    pub fn finish_single_leg(
        &mut self,
        market_id: String,
        total: Decimal,
        outcome: OrderOutcome,
        booked: Timestamp,
        now: Timestamp,
    ) -> (r: ArbTradeResult)
        requires
            decimal_sum(old(self).state().capital_used_usdc, total@) is Some,
        ensures
            r@ == (TradeView {
                timestamp: now@,
                market_id: market_id@,
                total_usdc: total@,
                order_id_a: order_id(outcome),
                order_id_b: None,
                error_a: order_error(outcome),
                error_b: None,
                status: arb_status(outcome is Ok, false),
            }),
            final(self).state() == old(self).state().after_trade(total@, booked@),
            is_sum(
                old(self).state().capital_used_usdc,
                total@,
                decimal_sum(old(self).state().capital_used_usdc, total@),
            ),
            final(self).limits() == old(self).limits(),
            final(self).key() == old(self).key(),
            final(self).wallet() == old(self).wallet(),
    {
        self.state.book(total, booked);
        let (order_id_a, error_a, status) = match outcome {
            Ok(id) => (Some(id), None, ArbStatus::OnlyAFilled),
            Err(e) => (None, Some(e), ArbStatus::BothFailed),
        };
        ArbTradeResult {
            timestamp: now,
            market_id,
            total_usdc: total,
            order_id_a,
            order_id_b: None,
            error_a,
            error_b: None,
            status,
        }
    }

    /// Books a trade of two legs at `booked`, filled or not, and says at `now`
    /// what became of it.
    pub fn finish_arb(
        &mut self,
        market_id: String,
        total: Decimal,
        outcome_a: OrderOutcome,
        outcome_b: OrderOutcome,
        booked: Timestamp,
        now: Timestamp,
    ) -> (r: ArbTradeResult)
        requires
            decimal_sum(old(self).state().capital_used_usdc, total@) is Some,
        ensures
            r@ == (TradeView {
                timestamp: now@,
                market_id: market_id@,
                total_usdc: total@,
                order_id_a: order_id(outcome_a),
                order_id_b: order_id(outcome_b),
                error_a: order_error(outcome_a),
                error_b: order_error(outcome_b),
                status: arb_status(outcome_a is Ok, outcome_b is Ok),
            }),
            final(self).state() == old(self).state().after_trade(total@, booked@),
            is_sum(
                old(self).state().capital_used_usdc,
                total@,
                decimal_sum(old(self).state().capital_used_usdc, total@),
            ),
            final(self).limits() == old(self).limits(),
            final(self).key() == old(self).key(),
            final(self).wallet() == old(self).wallet(),
    {
        self.state.book(total, booked);
        let (order_id_a, error_a) = match outcome_a {
            Ok(id) => (Some(id), None),
            Err(e) => (None, Some(e)),
        };
        let (order_id_b, error_b) = match outcome_b {
            Ok(id) => (Some(id), None),
            Err(e) => (None, Some(e)),
        };
        let status = match (&order_id_a, &order_id_b) {
            (Some(_), Some(_)) => ArbStatus::BothFilled,
            (Some(_), None) => ArbStatus::OnlyAFilled,
            (None, Some(_)) => ArbStatus::OnlyBFilled,
            (None, None) => ArbStatus::BothFailed,
        };
        ArbTradeResult {
            timestamp: now,
            market_id,
            total_usdc: total,
            order_id_a,
            order_id_b,
            error_a,
            error_b,
            status,
        }
    }

    /// [`LiveExecutor::finish_single_leg`] by the clock; nothing is booked where
    /// what is spent would overflow.
    pub fn settle_single_leg(
        &mut self,
        market_id: String,
        total: Decimal,
        outcome: OrderOutcome,
    ) -> (r: Option<ArbTradeResult>)
        ensures
            r is Some <==> decimal_sum(old(self).state().capital_used_usdc, total@) is Some,
            r is None ==> final(self).state() == old(self).state(),
            r matches Some(t) ==> {
                &&& t@.market_id == market_id@
                &&& t@.total_usdc == total@
                &&& t@.order_id_a == order_id(outcome)
                &&& t@.error_a == order_error(outcome)
                &&& t@.order_id_b is None
                &&& t@.error_b is None
                &&& t@.status == arb_status(outcome is Ok, false)
                &&& exists|booked: int|
                    in_range(booked) && final(self).state() == #[trigger] old(
                        self,
                    ).state().after_trade(total@, booked)
            },
            final(self).limits() == old(self).limits(),
            final(self).key() == old(self).key(),
            final(self).wallet() == old(self).wallet(),
    {
        if !self.can_book(total) {
            return None;
        }
        let booked = Timestamp::now();
        let now = Timestamp::now();
        Some(self.finish_single_leg(market_id, total, outcome, booked, now))
    }

    /// [`LiveExecutor::finish_arb`] by the clock; nothing is booked where what is
    /// spent would overflow.
    pub fn settle_arb(
        &mut self,
        market_id: String,
        total: Decimal,
        outcome_a: OrderOutcome,
        outcome_b: OrderOutcome,
    ) -> (r: Option<ArbTradeResult>)
        ensures
            r is Some <==> decimal_sum(old(self).state().capital_used_usdc, total@) is Some,
            r is None ==> final(self).state() == old(self).state(),
            r matches Some(t) ==> {
                &&& t@.market_id == market_id@
                &&& t@.total_usdc == total@
                &&& t@.order_id_a == order_id(outcome_a)
                &&& t@.error_a == order_error(outcome_a)
                &&& t@.order_id_b == order_id(outcome_b)
                &&& t@.error_b == order_error(outcome_b)
                &&& t@.status == arb_status(outcome_a is Ok, outcome_b is Ok)
                &&& exists|booked: int|
                    in_range(booked) && final(self).state() == #[trigger] old(
                        self,
                    ).state().after_trade(total@, booked)
            },
            final(self).limits() == old(self).limits(),
            final(self).key() == old(self).key(),
            final(self).wallet() == old(self).wallet(),
    {
        if !self.can_book(total) {
            return None;
        }
        let booked = Timestamp::now();
        let now = Timestamp::now();
        Some(self.finish_arb(market_id, total, outcome_a, outcome_b, booked, now))
    }
}

/// What an [`Admission`] says of a trade of `total`, and of the state before and
/// after it was asked for.
pub open spec fn admission_holds(
    r: Admission,
    total: Option<Num>,
    limits: LimitsView,
    before: SafetyView,
    after: SafetyView,
) -> bool {
    match total {
        None => r is Overflow && after == before,
        Some(t) => if !verdict_defined(limits, before, t) {
            r is Overflow && after == before
        } else {
            exists|now: int|
                in_range(now) && after == state_after_verdict(limits, before, t, now) && (
                match r {
                    Admission::Admitted(d) => d@ == t && #[trigger] verdict(
                        limits,
                        before,
                        t,
                        now,
                    ) is Ok,
                    Admission::Refused(e) => verdict(limits, before, t, now) == Err::<
                        (),
                        RefusalView,
                    >(e@),
                    Admission::Overflow => false,
                })
        },
    }
}

proof fn lemma_recent_times(times: Seq<int>, now: int)
    ensures
        recent_times(times, now).len() <= times.len(),
        forall|i: int|
            0 <= i < recent_times(times, now).len() ==> within_hour(
                #[trigger] recent_times(times, now)[i],
                now,
            ),
    decreases times.len(),
{
    if times.len() > 0 {
        lemma_recent_times(times.drop_last(), now);
        let before = recent_times(times.drop_last(), now);
        let after = recent_times(times, now);
        assert forall|i: int| 0 <= i < after.len() implies within_hour(#[trigger] after[i], now) by {
            if i < before.len() {
                assert(after[i] == before[i]);
            }
        }
    }
}

/// Law: pruning keeps just the trades of the last hour: every time that is kept
/// lies within it, and every time of a trade within it is kept.
pub proof fn pruning_keeps_the_last_hour(times: Seq<int>, now: int)
    ensures
        forall|t: int|
            #![trigger recent_times(times, now).contains(t)]
            recent_times(times, now).contains(t) <==> times.contains(t) && within_hour(t, now),
    decreases times.len(),
{
    if times.len() > 0 {
        let rest = times.drop_last();
        pruning_keeps_the_last_hour(rest, now);
        let before = recent_times(rest, now);
        let after = recent_times(times, now);
        assert forall|t: int|
            #![trigger after.contains(t)]
            after.contains(t) <==> times.contains(t) && within_hour(t, now) by {
            assert(before.contains(t) <==> rest.contains(t) && within_hour(t, now));
            if after.contains(t) {
                let i = choose|i: int| 0 <= i < after.len() && after[i] == t;
                if i < before.len() {
                    assert(before[i] == t);
                    assert(before.contains(t));
                    let j = choose|j: int| 0 <= j < rest.len() && rest[j] == t;
                    assert(times[j] == t);
                } else {
                    assert(times[times.len() - 1] == t);
                }
            }
            if times.contains(t) && within_hour(t, now) {
                let j = choose|j: int| 0 <= j < times.len() && times[j] == t;
                if j < rest.len() {
                    assert(rest[j] == t);
                    assert(before.contains(t));
                    let i = choose|i: int| 0 <= i < before.len() && before[i] == t;
                    assert(after[i] == t);
                } else {
                    assert(after.last() == t);
                    assert(after[after.len() - 1] == t);
                }
            }
        }
    }
}

/// Law: an admitted trade keeps the limits. No trade is above the maximum, what
/// is spent stays within the total, and with the trade there are no more trades
/// within the hour than there may be.
pub proof fn admitted_trade_keeps_the_limits(
    limits: LimitsView,
    state: SafetyView,
    size: Num,
    now: int,
    booked: int,
)
    requires
        verdict_defined(limits, state, size),
        verdict(limits, state, size, now) is Ok,
    ensures
        ({
            let after = state_after_verdict(limits, state, size, now).after_trade(size, booked);
            &&& units(size) <= units(limits.max_per_trade_usdc)
            &&& units(after.capital_used_usdc) <= units(limits.max_total_capital_usdc)
            &&& after.recent_trade_times.len() <= limits.max_trades_per_hour
        }),
{
}

/// Law: a refused trade spends nothing.
pub proof fn refused_trade_spends_nothing(
    limits: LimitsView,
    state: SafetyView,
    size: Num,
    now: int,
)
    requires
        verdict(limits, state, size, now) is Err,
    ensures
        state_after_verdict(limits, state, size, now).capital_used_usdc == state.capital_used_usdc,
        state_after_verdict(limits, state, size, now).recent_trade_times.len()
            <= state.recent_trade_times.len(),
{
    lemma_recent_times(state.recent_trade_times, now);
}

/// Calls `from_str` of `alloy::primitives::Address`, whose grammar is left to the
/// name; an account has 20 bytes.
#[verifier::external_body]
fn read_address(text: &str) -> (r: Option<Vec<u8>>)
    ensures
        account_option(r) == address_bytes(text@),
        r matches Some(a) ==> a@.len() == 20,
{
    text.parse::<alloy::primitives::Address>().ok().map(|a| a.to_vec())
}

/// Law: a trade goes ahead just where it is not above the maximum per trade, does not
/// bring what is spent above the total, and fewer trades than there may be were made
/// within the hour. A refusal names the first of these that fails, with its figures.
pub proof fn trades_go_ahead_just_within_the_limits(
    limits: LimitsView,
    state: SafetyView,
    size: Num,
    now: int,
)
    ensures
        ({
            let v = verdict(limits, state, size, now);
            let after = state_after_verdict(limits, state, size, now);
            let recent = recent_times(state.recent_trade_times, now);
            let small = units(size) <= units(limits.max_per_trade_usdc);
            let afforded = units(decimal_sum(state.capital_used_usdc, size)->0) <= units(
                limits.max_total_capital_usdc,
            );
            let seldom = recent.len() < limits.max_trades_per_hour;
            &&& v is Ok <==> small && afforded && seldom
            &&& !small ==> v == Err::<(), RefusalView>(
                RefusalView::TooLarge { size, max: limits.max_per_trade_usdc },
            )
            &&& small && !afforded ==> v == Err::<(), RefusalView>(
                RefusalView::Capital {
                    used: state.capital_used_usdc,
                    size,
                    max: limits.max_total_capital_usdc,
                },
            )
            &&& small && afforded && !seldom ==> v == Err::<(), RefusalView>(
                RefusalView::RateLimit {
                    recent: recent.len() as int,
                    max: limits.max_trades_per_hour,
                },
            )
            &&& after.capital_used_usdc == state.capital_used_usdc
            &&& small && afforded ==> after.recent_trade_times == recent
            &&& !small || !afforded ==> after.recent_trade_times == state.recent_trade_times
        }),
{
}

/// Law: trades count for an hour: one more trade counts just where it was made less than
/// an hour before, and those that count stay in their order.
pub proof fn trades_count_for_an_hour(times: Seq<int>, t: int, now: int, state: SafetyView)
    ensures
        recent_times(Seq::empty(), now).len() == 0,
        t > later(now, -3600) ==> recent_times(times.push(t), now) == recent_times(
            times,
            now,
        ).push(t),
        t <= later(now, -3600) ==> recent_times(times.push(t), now) == recent_times(times, now),
        state.pruned(now).recent_trade_times == recent_times(state.recent_trade_times, now),
        state.pruned(now).capital_used_usdc == state.capital_used_usdc,
{
    assert(times.push(t).drop_last() =~= times);
}

/// Law: booking a trade adds what it took to what was spent and its time to the times,
/// last. The addition is exact wherever the sum can be written down.
pub proof fn booked_trades_add_up(state: SafetyView, size: Num, now: int, exact: Num)
    requires
        is_sum(
            state.capital_used_usdc,
            size,
            decimal_sum(state.capital_used_usdc, size),
        ),
    ensures
        state.after_trade(size, now).recent_trade_times == state.recent_trade_times.push(now),
        decimal_sum(state.capital_used_usdc, size) matches Some(sum) ==> state.after_trade(
            size,
            now,
        ).capital_used_usdc == sum,
        representable(exact) && units(exact) == units(state.capital_used_usdc) + units(size)
            ==> units(state.after_trade(size, now).capital_used_usdc) == units(
            state.capital_used_usdc,
        ) + units(size),
        SafetyView::fresh().capital_used_usdc.mant == 0,
        SafetyView::fresh().recent_trade_times.len() == 0,
{
    let u = one_unit();
    lemma_pow10_28();
    if representable(exact) && units(exact) == units(state.capital_used_usdc) + units(size) {
        what_fits_is_exact(
            units(state.capital_used_usdc) + units(size),
            u,
            exact,
            decimal_sum(state.capital_used_usdc, size),
        );
    }
}

/// Law: the status of a trade says of each leg whether it was filled; a leg that was
/// filled has the id of its order and no error, any other an error and no id.
pub proof fn status_says_which_legs_were_filled(a: OrderOutcome, b: OrderOutcome)
    ensures
        ({
            let status = arb_status(a is Ok, b is Ok);
            &&& status == ArbStatus::BothFilled <==> a is Ok && b is Ok
            &&& status == ArbStatus::OnlyAFilled <==> a is Ok && b is Err
            &&& status == ArbStatus::OnlyBFilled <==> a is Err && b is Ok
            &&& status == ArbStatus::BothFailed <==> a is Err && b is Err
        }),
        a matches Ok(id) ==> order_id(a) == Some(id@) && order_error(a) is None,
        a matches Err(e) ==> order_error(a) == Some(e@) && order_id(a) is None,
{
}

/// Law: the wallet signs with the key's own account for `0` or where nothing is set, with a
/// proxy for `1` and with a Safe for `2`, and with nothing else; it has a funder just where
/// one is set that is not blank, and that one must be an account. The signature type is
/// looked at first.
pub proof fn wallets_are_what_the_variables_say(vars: Map<Seq<char>, String>)
    ensures
        ({
            let w = wallet_of(vars);
            let raw = vars["FUNDER_ADDRESS"@]@;
            let kind = if vars.contains_key("SIGNATURE_TYPE"@) {
                trimmed(vars["SIGNATURE_TYPE"@]@)
            } else {
                "0"@
            };
            let known = kind == "0"@ || kind == "1"@ || kind == "2"@;
            let funded = vars.contains_key("FUNDER_ADDRESS"@) && trimmed(raw).len() > 0;
            let valid = !funded || address_bytes(trimmed(raw)) is Some;
            &&& w is Ok <==> known && valid
            &&& w matches Ok((funder, t)) ==> {
                &&& t == SignatureType::Eoa <==> kind == "0"@
                &&& t == SignatureType::Proxy <==> kind == "1"@
                &&& t == SignatureType::GnosisSafe <==> kind == "2"@
                &&& funded ==> funder == address_bytes(trimmed(raw))
                &&& !funded ==> funder is None
            }
            &&& !known ==> w == Err::<(Option<Seq<u8>>, SignatureType), WalletErrorView>(
                WalletErrorView::SignatureType(kind),
            )
            &&& known && !valid ==> w == Err::<(Option<Seq<u8>>, SignatureType), WalletErrorView>(
                WalletErrorView::Funder(raw),
            )
        }),
{
    reveal_strlit("0");
    reveal_strlit("1");
    reveal_strlit("2");
    assert("0"@[0] == '0' && "1"@[0] == '1' && "2"@[0] == '2');
    let (zero, none) = ("0"@, Seq::<char>::empty());
    trimming_takes_the_whitespace_off(none, zero, none);
    assert(none + zero + none =~= zero);
}

/// Law: sixty-four hexadecimal digits are a key, with `0x` before them as often as one
/// likes and with whitespace around; a key that is read is such digits and nothing else.
pub proof fn keys_are_sixty_four_hexadecimal_digits(
    before: Seq<char>,
    key: Seq<char>,
    after: Seq<char>,
    raw: Seq<char>,
)
    requires
        key.len() == 64,
        forall|i: int| 0 <= i < key.len() ==> is_hex_digit(#[trigger] key[i]),
        forall|i: int| 0 <= i < before.len() ==> whitespace(#[trigger] before[i]),
        forall|i: int| 0 <= i < after.len() ==> whitespace(#[trigger] after[i]),
    ensures
        key_of(before + key + after) == Ok::<Seq<char>, KeyError>(key),
        key_of(before + ("0x"@ + key) + after) == Ok::<Seq<char>, KeyError>(key),
        key_of(raw) matches Ok(k) ==> {
            &&& k == without_prefixes(trimmed(raw), "0x"@)
            &&& k.len() == 64
            &&& forall|i: int| 0 <= i < k.len() ==> is_hex_digit(#[trigger] k[i])
        },
        key_of(raw) == Err::<Seq<char>, KeyError>(KeyError::Length) <==> encode_utf8(
            without_prefixes(trimmed(raw), "0x"@),
        ).len() != 64,
{
    reveal_strlit("0x");
    let prefix = "0x"@;
    let prefixed = prefix + key;
    assert(prefix[0] == '0' && prefix[1] == 'x');
    assert(is_hex_digit(key[0]) && is_hex_digit(key[63]) && is_hex_digit(key[1]));
    assert(!whitespace(key[0]) && !whitespace(key.last()));
    trimming_takes_the_whitespace_off(before, key, after);
    assert(prefixed[0] == '0' && prefixed.last() == key.last());
    trimming_takes_the_whitespace_off(before, prefixed, after);
    every_repetition_comes_off(key, prefix);
    assert(!prefix.is_prefix_of(key)) by {
        if prefix.is_prefix_of(key) {
            assert(key[1] == prefix[1]);
        }
    }
    lemma_hex_digits_are_bytes(key);
    if key_of(raw) is Ok {
        lemma_hex_digits_are_bytes(bare_key(raw));
    }
}

/// A hexadecimal digit takes one byte.
proof fn lemma_hex_digits_are_bytes(key: Seq<char>)
    requires
        forall|i: int| 0 <= i < key.len() ==> is_hex_digit(#[trigger] key[i]),
    ensures
        encode_utf8(key).len() == key.len(),
{
    assert forall|i: int| 0 <= i < key.len() implies (#[trigger] key[i] as nat) < 128 by {
        assert(is_hex_digit(key[i]));
    }
    assert(vstd::utf8::is_ascii_chars(key));
    vstd::utf8::is_ascii_chars_encode_utf8(key);
}

/// Law: a trade is admitted with its whole total and only within the limits: it is not
/// above the maximum per trade, what is spent stays within the total, and fewer trades than
/// there may be were made within the hour. Where a figure overflows nothing changes, and
/// no verdict changes what is spent.
pub proof fn admissions_keep_the_limits(
    r: Admission,
    total: Option<Num>,
    limits: LimitsView,
    before: SafetyView,
    after: SafetyView,
)
    requires
        admission_holds(r, total, limits, before, after),
    ensures
        after.capital_used_usdc == before.capital_used_usdc,
        r matches Admission::Admitted(d) ==> {
            &&& total == Some(d@)
            &&& units(d@) <= units(limits.max_per_trade_usdc)
            &&& decimal_sum(before.capital_used_usdc, d@) matches Some(sum) && units(sum) <= units(
                limits.max_total_capital_usdc,
            )
            &&& after.recent_trade_times.len() < limits.max_trades_per_hour
        },
        r is Overflow <==> total is None || (units(total->0) <= units(limits.max_per_trade_usdc)
            && decimal_sum(before.capital_used_usdc, total->0) is None),
        r is Overflow ==> after == before,
        r matches Admission::Refused(e) ==> total is Some && match e@ {
            RefusalView::TooLarge { size, max } => size == total->0 && max
                == limits.max_per_trade_usdc && units(size) > units(max) && after == before,
            RefusalView::Capital { used, size, max } => used == before.capital_used_usdc && size
                == total->0 && max == limits.max_total_capital_usdc && units(
                decimal_sum(used, size)->0,
            ) > units(max) && after == before,
            RefusalView::RateLimit { recent, max } => recent == after.recent_trade_times.len()
                && max == limits.max_trades_per_hour && recent >= max,
        },
{
}

} // verus!
