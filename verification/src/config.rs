//! Settings, read from environment variables.

use crate::decimal::{Decimal, Num, decimal_text, whole_num};
use crate::string_map::StringMap;
use crate::text::{integer_text, parse_u32, parse_u64};
use vstd::prelude::*;
use vstd::string::StringExecFns;

verus! {

/// What the bot goes by.
#[derive(Debug)]
pub struct Settings {
    pub poly_ws_url: String,
    pub gamma_url: String,
    pub arb_min_edge_per_unit: Decimal,
    pub arb_max_size_usdc: Decimal,
    pub arb_fee_rate_bps: u32,
    pub arb_slippage_buffer_bps: u32,
    pub arb_markets_refresh_seconds: u64,
    pub arb_horizon_seconds: u64,
    pub arb_gamma_limit: u32,
    pub db_path: String,
    pub stop_file_path: String,
}

/// What [`Settings`] say.
pub struct SettingsView {
    pub poly_ws_url: Seq<char>,
    pub gamma_url: Seq<char>,
    pub arb_min_edge_per_unit: Num,
    pub arb_max_size_usdc: Num,
    pub arb_fee_rate_bps: int,
    pub arb_slippage_buffer_bps: int,
    pub arb_markets_refresh_seconds: int,
    pub arb_horizon_seconds: int,
    pub arb_gamma_limit: int,
    pub db_path: Seq<char>,
    pub stop_file_path: Seq<char>,
}

impl View for Settings {
    type V = SettingsView;

    open spec fn view(&self) -> SettingsView {
        SettingsView {
            poly_ws_url: self.poly_ws_url@,
            gamma_url: self.gamma_url@,
            arb_min_edge_per_unit: self.arb_min_edge_per_unit@,
            arb_max_size_usdc: self.arb_max_size_usdc@,
            arb_fee_rate_bps: self.arb_fee_rate_bps as int,
            arb_slippage_buffer_bps: self.arb_slippage_buffer_bps as int,
            arb_markets_refresh_seconds: self.arb_markets_refresh_seconds as int,
            arb_horizon_seconds: self.arb_horizon_seconds as int,
            arb_gamma_limit: self.arb_gamma_limit as int,
            db_path: self.db_path@,
            stop_file_path: self.stop_file_path@,
        }
    }
}

/// What a variable should have been.
#[derive(Debug, Clone, Copy, PartialEq, Eq, Structural)]
pub enum Expected {
    Decimal,
    U32,
    U64,
}

/// A variable that cannot be read.
#[derive(Debug)]
pub struct SettingError {
    pub key: &'static str,
    pub expected: Expected,
    pub raw: String,
}

/// What a [`SettingError`] says.
pub struct SettingErrorView {
    pub key: Seq<char>,
    pub expected: Expected,
    pub raw: Seq<char>,
}

impl View for SettingError {
    type V = SettingErrorView;

    open spec fn view(&self) -> SettingErrorView {
        SettingErrorView { key: self.key@, expected: self.expected, raw: self.raw@ }
    }
}

impl SettingError {
    /// The error in words.
    pub fn message(&self) -> (r: String)
        ensures
            r@ == self@.key + (match self@.expected {
                Expected::Decimal => " not a decimal: "@,
                Expected::U32 => " not a u32: "@,
                Expected::U64 => " not a u64: "@,
            }) + self@.raw,
    {
        let mut s = self.key.to_string();
        s.append(
            match self.expected {
                Expected::Decimal => " not a decimal: ",
                Expected::U32 => " not a u32: ",
                Expected::U64 => " not a u64: ",
            },
        );
        s.append(self.raw.as_str());
        s
    }
}

/// The environment variables that are set.
pub type Vars = Map<Seq<char>, String>;

/// A text setting.
pub open spec fn text_setting(vars: Vars, key: Seq<char>, default: Seq<char>) -> Seq<char> {
    if vars.contains_key(key) {
        vars[key]@
    } else {
        default
    }
}

/// A decimal setting.
pub open spec fn decimal_setting(vars: Vars, key: Seq<char>, default: Num) -> Result<
    Num,
    SettingErrorView,
> {
    if vars.contains_key(key) {
        match decimal_text(vars[key]@) {
            Some(n) => Ok(n),
            None => Err(SettingErrorView { key, expected: Expected::Decimal, raw: vars[key]@ }),
        }
    } else {
        Ok(default)
    }
}

/// An integer setting of up to `high`.
pub open spec fn integer_setting(
    vars: Vars,
    key: Seq<char>,
    default: int,
    expected: Expected,
    high: int,
) -> Result<int, SettingErrorView> {
    if vars.contains_key(key) {
        match integer_text(vars[key]@, 0, high) {
            Some(n) => Ok(n),
            None => Err(SettingErrorView { key, expected, raw: vars[key]@ }),
        }
    } else {
        Ok(default)
    }
}

/// The settings that the variables give, or the first of them that cannot be
/// read.
pub open spec fn settings_of(vars: Vars) -> Result<SettingsView, SettingErrorView> {
    let min_edge = decimal_setting(
        vars,
        "ARB_MIN_EDGE_PER_UNIT"@,
        Num { mant: 2, scale: 3 },
    );
    let max_size = decimal_setting(vars, "ARB_MAX_SIZE_USDC"@, whole_num(20));
    if min_edge is Err {
        Err(min_edge->Err_0)
    } else if max_size is Err {
        Err(max_size->Err_0)
    } else {
        settings_with(vars, min_edge->Ok_0, max_size->Ok_0)
    }
}

/// The settings that the variables give besides two amounts that were read.
pub open spec fn settings_with(vars: Vars, min_edge: Num, max_size: Num) -> Result<
    SettingsView,
    SettingErrorView,
> {
    let u32_max = u32::MAX as int;
    let u64_max = u64::MAX as int;
    let fee = integer_setting(vars, "ARB_FEE_RATE_BPS"@, 180, Expected::U32, u32_max);
    let slippage = integer_setting(vars, "ARB_SLIPPAGE_BUFFER_BPS"@, 20, Expected::U32, u32_max);
    let refresh = integer_setting(
        vars,
        "ARB_MARKETS_REFRESH_SECONDS"@,
        120,
        Expected::U64,
        u64_max,
    );
    let horizon = integer_setting(vars, "ARB_HORIZON_SECONDS"@, 7200, Expected::U64, u64_max);
    let limit = integer_setting(vars, "ARB_GAMMA_LIMIT"@, 500, Expected::U32, u32_max);
    if fee is Err {
        Err(fee->Err_0)
    } else if slippage is Err {
        Err(slippage->Err_0)
    } else if refresh is Err {
        Err(refresh->Err_0)
    } else if horizon is Err {
        Err(horizon->Err_0)
    } else if limit is Err {
        Err(limit->Err_0)
    } else {
        Ok(
            SettingsView {
                poly_ws_url: text_setting(
                    vars,
                    "POLY_WS_URL"@,
                    "wss://ws-subscriptions-clob.polymarket.com/ws/market"@,
                ),
                gamma_url: text_setting(
                    vars,
                    "GAMMA_URL"@,
                    "https://gamma-api.polymarket.com"@,
                ),
                arb_min_edge_per_unit: min_edge,
                arb_max_size_usdc: max_size,
                arb_fee_rate_bps: fee->Ok_0,
                arb_slippage_buffer_bps: slippage->Ok_0,
                arb_markets_refresh_seconds: refresh->Ok_0,
                arb_horizon_seconds: horizon->Ok_0,
                arb_gamma_limit: limit->Ok_0,
                db_path: text_setting(vars, "DB_PATH"@, "state/rust_bot.jsonl"@),
                stop_file_path: text_setting(vars, "STOP_FILE_PATH"@, "state/STOP"@),
            },
        )
    }
}

fn get_text(vars: &StringMap<String>, key: &'static str, default: &'static str) -> (r: String)
    ensures
        r@ == text_setting(vars@, key@, default@),
{
    match vars.get(key) {
        Some(v) => v.clone(),
        None => default.to_string(),
    }
}

fn get_decimal(vars: &StringMap<String>, key: &'static str, default: Decimal) -> (r: Result<
    Decimal,
    SettingError,
>)
    ensures
        match r {
            Ok(d) => decimal_setting(vars@, key@, default@) == Ok::<Num, SettingErrorView>(d@),
            Err(e) => decimal_setting(vars@, key@, default@) == Err::<Num, SettingErrorView>(e@),
        },
{
    match vars.get(key) {
        Some(v) => match Decimal::parse(v.as_str()) {
            Some(d) => Ok(d),
            None => Err(SettingError { key, expected: Expected::Decimal, raw: v.clone() }),
        },
        None => Ok(default),
    }
}

fn get_u32(vars: &StringMap<String>, key: &'static str, default: u32) -> (r: Result<
    u32,
    SettingError,
>)
    ensures
        match r {
            Ok(n) => integer_setting(
                vars@,
                key@,
                default as int,
                Expected::U32,
                u32::MAX as int,
            ) == Ok::<int, SettingErrorView>(n as int),
            Err(e) => integer_setting(
                vars@,
                key@,
                default as int,
                Expected::U32,
                u32::MAX as int,
            ) == Err::<int, SettingErrorView>(e@),
        },
{
    match vars.get(key) {
        Some(v) => match parse_u32(v.as_str()) {
            Some(n) => Ok(n),
            None => Err(SettingError { key, expected: Expected::U32, raw: v.clone() }),
        },
        None => Ok(default),
    }
}

fn get_u64(vars: &StringMap<String>, key: &'static str, default: u64) -> (r: Result<
    u64,
    SettingError,
>)
    ensures
        match r {
            Ok(n) => integer_setting(
                vars@,
                key@,
                default as int,
                Expected::U64,
                u64::MAX as int,
            ) == Ok::<int, SettingErrorView>(n as int),
            Err(e) => integer_setting(
                vars@,
                key@,
                default as int,
                Expected::U64,
                u64::MAX as int,
            ) == Err::<int, SettingErrorView>(e@),
        },
{
    match vars.get(key) {
        Some(v) => match parse_u64(v.as_str()) {
            Some(n) => Ok(n),
            None => Err(SettingError { key, expected: Expected::U64, raw: v.clone() }),
        },
        None => Ok(default),
    }
}

impl Settings {
    /// The settings that the environment variables `vars` give. A variable that
    /// is not set takes its default; the first that cannot be read is the error.
    pub fn from_env(vars: &StringMap<String>) -> (r: Result<Settings, SettingError>)
        ensures
            match r {
                Ok(s) => settings_of(vars@) == Ok::<SettingsView, SettingErrorView>(s@),
                Err(e) => settings_of(vars@) == Err::<SettingsView, SettingErrorView>(e@),
            },
    {
        let arb_min_edge_per_unit = match get_decimal(
            vars,
            "ARB_MIN_EDGE_PER_UNIT",
            Decimal::new(2, 3),
        ) {
            Ok(d) => d,
            Err(e) => return Err(e),
        };
        let arb_max_size_usdc = match get_decimal(vars, "ARB_MAX_SIZE_USDC", Decimal::new(20, 0)) {
            Ok(d) => d,
            Err(e) => return Err(e),
        };
        Settings::with_amounts(vars, arb_min_edge_per_unit, arb_max_size_usdc)
    }

    /// The settings that the environment variables give besides two amounts that
    /// were read.
    pub fn with_amounts(
        vars: &StringMap<String>,
        arb_min_edge_per_unit: Decimal,
        arb_max_size_usdc: Decimal,
    ) -> (r: Result<Settings, SettingError>)
        ensures
            match r {
                Ok(s) => settings_with(vars@, arb_min_edge_per_unit@, arb_max_size_usdc@) == Ok::<
                    SettingsView,
                    SettingErrorView,
                >(s@),
                Err(e) => settings_with(vars@, arb_min_edge_per_unit@, arb_max_size_usdc@) == Err::<
                    SettingsView,
                    SettingErrorView,
                >(e@),
            },
    {
        let arb_fee_rate_bps = match get_u32(vars, "ARB_FEE_RATE_BPS", 180) {
            Ok(n) => n,
            Err(e) => return Err(e),
        };
        let arb_slippage_buffer_bps = match get_u32(vars, "ARB_SLIPPAGE_BUFFER_BPS", 20) {
            Ok(n) => n,
            Err(e) => return Err(e),
        };
        let arb_markets_refresh_seconds = match get_u64(vars, "ARB_MARKETS_REFRESH_SECONDS", 120) {
            Ok(n) => n,
            Err(e) => return Err(e),
        };
        let arb_horizon_seconds = match get_u64(vars, "ARB_HORIZON_SECONDS", 7200) {
            Ok(n) => n,
            Err(e) => return Err(e),
        };
        let arb_gamma_limit = match get_u32(vars, "ARB_GAMMA_LIMIT", 500) {
            Ok(n) => n,
            Err(e) => return Err(e),
        };
        Ok(
            Settings {
                poly_ws_url: get_text(
                    vars,
                    "POLY_WS_URL",
                    "wss://ws-subscriptions-clob.polymarket.com/ws/market",
                ),
                gamma_url: get_text(vars, "GAMMA_URL", "https://gamma-api.polymarket.com"),
                arb_min_edge_per_unit,
                arb_max_size_usdc,
                arb_fee_rate_bps,
                arb_slippage_buffer_bps,
                arb_markets_refresh_seconds,
                arb_horizon_seconds,
                arb_gamma_limit,
                db_path: get_text(vars, "DB_PATH", "state/rust_bot.jsonl"),
                stop_file_path: get_text(vars, "STOP_FILE_PATH", "state/STOP"),
            },
        )
    }
}

/// Law: each variable that is set gives its own setting, and each that is not leaves it at
/// its default.
pub proof fn each_variable_gives_its_own_setting(vars: Vars)
    ensures
        settings_of(vars) matches Ok(s) ==> {
            &&& s.poly_ws_url == (if vars.contains_key("POLY_WS_URL"@) {
                vars["POLY_WS_URL"@]@
            } else {
                "wss://ws-subscriptions-clob.polymarket.com/ws/market"@
            })
            &&& s.gamma_url == (if vars.contains_key("GAMMA_URL"@) {
                vars["GAMMA_URL"@]@
            } else {
                "https://gamma-api.polymarket.com"@
            })
            &&& s.db_path == (if vars.contains_key("DB_PATH"@) {
                vars["DB_PATH"@]@
            } else {
                "state/rust_bot.jsonl"@
            })
            &&& s.stop_file_path == (if vars.contains_key("STOP_FILE_PATH"@) {
                vars["STOP_FILE_PATH"@]@
            } else {
                "state/STOP"@
            })
            &&& Some(s.arb_min_edge_per_unit) == (if vars.contains_key("ARB_MIN_EDGE_PER_UNIT"@) {
                decimal_text(vars["ARB_MIN_EDGE_PER_UNIT"@]@)
            } else {
                Some(Num { mant: 2, scale: 3 })
            })
            &&& Some(s.arb_max_size_usdc) == (if vars.contains_key("ARB_MAX_SIZE_USDC"@) {
                decimal_text(vars["ARB_MAX_SIZE_USDC"@]@)
            } else {
                Some(Num { mant: 20, scale: 0 })
            })
            &&& Some(s.arb_fee_rate_bps) == (if vars.contains_key("ARB_FEE_RATE_BPS"@) {
                integer_text(vars["ARB_FEE_RATE_BPS"@]@, 0, 0xffff_ffff)
            } else {
                Some(180)
            })
            &&& Some(s.arb_slippage_buffer_bps) == (if vars.contains_key(
                "ARB_SLIPPAGE_BUFFER_BPS"@,
            ) {
                integer_text(vars["ARB_SLIPPAGE_BUFFER_BPS"@]@, 0, 0xffff_ffff)
            } else {
                Some(20)
            })
            &&& Some(s.arb_markets_refresh_seconds) == (if vars.contains_key(
                "ARB_MARKETS_REFRESH_SECONDS"@,
            ) {
                integer_text(vars["ARB_MARKETS_REFRESH_SECONDS"@]@, 0, 0xffff_ffff_ffff_ffff)
            } else {
                Some(120)
            })
            &&& Some(s.arb_horizon_seconds) == (if vars.contains_key("ARB_HORIZON_SECONDS"@) {
                integer_text(vars["ARB_HORIZON_SECONDS"@]@, 0, 0xffff_ffff_ffff_ffff)
            } else {
                Some(7200)
            })
            &&& Some(s.arb_gamma_limit) == (if vars.contains_key("ARB_GAMMA_LIMIT"@) {
                integer_text(vars["ARB_GAMMA_LIMIT"@]@, 0, 0xffff_ffff)
            } else {
                Some(500)
            })
        },
{
}

/// Law: the settings fail just on a variable that is set and writes no number of its kind;
/// the error is about the first one, and quotes it.
pub proof fn settings_fail_on_the_first_unreadable_variable(vars: Vars)
    ensures
        ({
            let edge = vars["ARB_MIN_EDGE_PER_UNIT"@]@;
            let size = vars["ARB_MAX_SIZE_USDC"@]@;
            let fee = vars["ARB_FEE_RATE_BPS"@]@;
            let slippage = vars["ARB_SLIPPAGE_BUFFER_BPS"@]@;
            let refresh = vars["ARB_MARKETS_REFRESH_SECONDS"@]@;
            let horizon = vars["ARB_HORIZON_SECONDS"@]@;
            let limit = vars["ARB_GAMMA_LIMIT"@]@;
            let bad_edge = vars.contains_key("ARB_MIN_EDGE_PER_UNIT"@) && decimal_text(edge)
                is None;
            let bad_size = vars.contains_key("ARB_MAX_SIZE_USDC"@) && decimal_text(size) is None;
            let bad_fee = vars.contains_key("ARB_FEE_RATE_BPS"@) && integer_text(
                fee,
                0,
                0xffff_ffff,
            ) is None;
            let bad_slippage = vars.contains_key("ARB_SLIPPAGE_BUFFER_BPS"@) && integer_text(
                slippage,
                0,
                0xffff_ffff,
            ) is None;
            let bad_refresh = vars.contains_key("ARB_MARKETS_REFRESH_SECONDS"@) && integer_text(
                refresh,
                0,
                0xffff_ffff_ffff_ffff,
            ) is None;
            let bad_horizon = vars.contains_key("ARB_HORIZON_SECONDS"@) && integer_text(
                horizon,
                0,
                0xffff_ffff_ffff_ffff,
            ) is None;
            let bad_limit = vars.contains_key("ARB_GAMMA_LIMIT"@) && integer_text(
                limit,
                0,
                0xffff_ffff,
            ) is None;
            let (key, expected, raw) = if bad_edge {
                ("ARB_MIN_EDGE_PER_UNIT"@, Expected::Decimal, edge)
            } else if bad_size {
                ("ARB_MAX_SIZE_USDC"@, Expected::Decimal, size)
            } else if bad_fee {
                ("ARB_FEE_RATE_BPS"@, Expected::U32, fee)
            } else if bad_slippage {
                ("ARB_SLIPPAGE_BUFFER_BPS"@, Expected::U32, slippage)
            } else if bad_refresh {
                ("ARB_MARKETS_REFRESH_SECONDS"@, Expected::U64, refresh)
            } else if bad_horizon {
                ("ARB_HORIZON_SECONDS"@, Expected::U64, horizon)
            } else {
                ("ARB_GAMMA_LIMIT"@, Expected::U32, limit)
            };
            &&& settings_of(vars) is Err <==> bad_edge || bad_size || bad_fee || bad_slippage
                || bad_refresh || bad_horizon || bad_limit
            &&& settings_of(vars) matches Err(e) ==> e.key == key && e.expected == expected && e.raw
                == raw
        }),
{
}

} // verus!
