//! Which markets to follow: open crypto markets that end soon.
//!
//! The Gamma API lists markets as
//! - `conditionId`, `slug`, `question`: texts,
//! - `clobTokenIds`: a JSON array of two texts, itself written as a text,
//! - `endDate`: an RFC 3339 text,
//! - `closed`, `negRisk`: booleans.

use crate::text::{lower_case, number_digits, number_text, text_option, texts, to_lowercase};
use crate::timestamp::{
    Timestamp, in_range, later, rfc3339_instant, rfc3339_text, seconds_between, timestamp_option,
};
use crate::types::{Market, MarketView};
use vstd::prelude::*;
use vstd::string::StringExecFns;

verus! {

/// Which texts speak of a crypto.
pub const CRYPTO_PATTERN: &'static str =
    "(?i)(bitcoin|btc|ethereum|eth|solana|sol|xrp|dogecoin|doge|bnb|hyperliquid|hype)";

/// Which texts speak of a short-lived market: "up or down", "up-or-down" and
/// "updown" among others.
pub const HOURLY_PATTERN: &'static str =
    "(?i)(up[-\\s]*or[-\\s]*down|updown|above|below|reach|hourly|\\b5m\\b|\\b15m\\b|\\b1h\\b|15-min|5-min)";

/// Whether the regular expression `pattern` matches somewhere in `text`; nothing
/// where it is no regular expression.
pub uninterp spec fn regex_verdict(pattern: Seq<char>, text: Seq<char>) -> Option<bool>;

/// The texts that a JSON array of texts lists.
pub uninterp spec fn json_text_list(text: Seq<char>) -> Option<Seq<Seq<char>>>;

/// A market as the Gamma API lists it.
#[derive(Debug)]
pub struct GammaMarketRaw {
    pub condition_id: Option<String>,
    pub slug: Option<String>,
    pub question: Option<String>,
    pub clob_token_ids: Option<String>,
    pub end_date: Option<String>,
    pub closed: bool,
    pub neg_risk: bool,
}

/// `text` matches `pattern`.
pub open spec fn text_matches(pattern: Seq<char>, text: Seq<char>) -> bool {
    regex_verdict(pattern, text) == Some(true)
}

/// The text that the patterns are held against.
pub open spec fn searched_text(slug: Seq<char>, question: Seq<char>) -> Seq<char> {
    lower_case(slug) + " "@ + lower_case(question)
}

/// A market that ends at `end` ends between `now` and the horizon.
pub open spec fn ends_in_time(end: int, now: int, max_horizon_seconds: int) -> bool {
    0 <= seconds_between(now, end) <= max_horizon_seconds
}

/// The end of a market is known, and between `now` and the horizon.
pub open spec fn market_ends_in_time(
    market: MarketView,
    now: int,
    max_horizon_seconds: int,
) -> bool {
    market.end_date matches Some(end) && ends_in_time(end, now, max_horizon_seconds)
}

/// What was read out of a listing.
pub struct Readings {
    /// The assets, where their list can be read.
    pub token_ids: Option<Vec<String>>,
    /// The end, where it can be read.
    pub end: Option<Timestamp>,
    pub speaks_of_crypto: bool,
    pub speaks_of_short_life: bool,
}

/// What [`Readings`] say.
pub struct ReadingsView {
    pub token_ids: Option<Seq<Seq<char>>>,
    pub end: Option<int>,
    pub speaks_of_crypto: bool,
    pub speaks_of_short_life: bool,
}

impl View for Readings {
    type V = ReadingsView;

    open spec fn view(&self) -> ReadingsView {
        ReadingsView {
            token_ids: match self.token_ids {
                Some(v) => Some(texts(v@)),
                None => None,
            },
            end: timestamp_option(self.end),
            speaks_of_crypto: self.speaks_of_crypto,
            speaks_of_short_life: self.speaks_of_short_life,
        }
    }
}

/// What there is to read out of a listing. Of one without tokens or end, nothing
/// is.
pub open spec fn readings_of(raw: GammaMarketRaw) -> ReadingsView {
    let text = match (text_option(raw.slug), text_option(raw.question)) {
        (Some(slug), Some(question)) => searched_text(slug, question),
        _ => Seq::empty(),
    };
    ReadingsView {
        token_ids: match text_option(raw.clob_token_ids) {
            Some(t) => json_text_list(t),
            None => None,
        },
        end: match text_option(raw.end_date) {
            Some(t) => rfc3339_instant(t),
            None => None,
        },
        speaks_of_crypto: text_matches(CRYPTO_PATTERN@, text),
        speaks_of_short_life: text_matches(HOURLY_PATTERN@, text),
    }
}

/// The market of a listing of which `readings` were taken, if it is one to
/// follow: it is open and complete, it has two assets, it ends within the horizon,
/// and its texts speak of a crypto and of a short life.
pub open spec fn market_on_readings(
    raw: GammaMarketRaw,
    readings: ReadingsView,
    now: int,
    max_horizon_seconds: int,
) -> Option<MarketView> {
    match (
        text_option(raw.condition_id),
        text_option(raw.slug),
        text_option(raw.question),
        readings.token_ids,
        readings.end,
    ) {
        (Some(id), Some(slug), Some(question), Some(ids), Some(end)) => if !raw.closed
            && ids.len() == 2 && ends_in_time(end, now, max_horizon_seconds)
            && readings.speaks_of_crypto && readings.speaks_of_short_life {
            Some(
                MarketView {
                    condition_id: id,
                    slug,
                    question,
                    yes_token_id: ids[0],
                    no_token_id: ids[1],
                    end_date: Some(end),
                    neg_risk: raw.neg_risk,
                },
            )
        } else {
            None
        },
        _ => None,
    }
}

/// The market of a listing, if it is one to follow.
pub open spec fn market_to_follow(
    raw: GammaMarketRaw,
    now: int,
    max_horizon_seconds: int,
) -> Option<MarketView> {
    market_on_readings(raw, readings_of(raw), now, max_horizon_seconds)
}

/// The markets of a list that are to be followed, in order.
pub open spec fn markets_to_follow(
    raw: Seq<GammaMarketRaw>,
    now: int,
    max_horizon_seconds: int,
) -> Seq<MarketView>
    decreases raw.len(),
{
    if raw.len() == 0 {
        Seq::empty()
    } else {
        let before = markets_to_follow(raw.drop_last(), now, max_horizon_seconds);
        match market_to_follow(raw.last(), now, max_horizon_seconds) {
            Some(m) => before.push(m),
            None => before,
        }
    }
}

/// The views of a list of markets.
pub open spec fn market_views(v: Seq<Market>) -> Seq<MarketView> {
    v.map_values(|m: Market| m@)
}

/// Whether a text speaks of a crypto.
pub fn speaks_of_crypto(text: &str) -> (r: bool)
    ensures
        r == text_matches(CRYPTO_PATTERN@, text@),
{
    match regex_is_match(CRYPTO_PATTERN, text) {
        Some(b) => b,
        None => false,
    }
}

/// Whether a text speaks of a short-lived market.
pub fn speaks_of_short_life(text: &str) -> (r: bool)
    ensures
        r == text_matches(HOURLY_PATTERN@, text@),
{
    match regex_is_match(HOURLY_PATTERN, text) {
        Some(b) => b,
        None => false,
    }
}

/// Reads what there is to read out of a listing.
fn read_listing(raw: &GammaMarketRaw) -> (r: Readings)
    ensures
        r@ == readings_of(*raw),
{
    let token_ids = match &raw.clob_token_ids {
        Some(t) => read_text_list(t.as_str()),
        None => None,
    };
    let end = match &raw.end_date {
        Some(t) => Timestamp::parse_rfc3339(t.as_str()),
        None => None,
    };
    let text = match (&raw.slug, &raw.question) {
        (Some(slug), Some(question)) => {
            let mut text = to_lowercase(slug.as_str());
            text.append(" ");
            text.append(to_lowercase(question.as_str()).as_str());
            text
        },
        _ => String::new(),
    };
    Readings {
        token_ids,
        end,
        speaks_of_crypto: speaks_of_crypto(text.as_str()),
        speaks_of_short_life: speaks_of_short_life(text.as_str()),
    }
}

/// The market of a listing of which `readings` were taken, if it is one to follow.
pub fn judge_listing(
    raw: &GammaMarketRaw,
    readings: &Readings,
    now: Timestamp,
    max_horizon_seconds: u64,
) -> (r: Option<Market>)
    ensures
        match r {
            Some(m) => market_on_readings(*raw, readings@, now@, max_horizon_seconds as int)
                == Some(m@),
            None => market_on_readings(*raw, readings@, now@, max_horizon_seconds as int) is None,
        },
        r matches Some(m) ==> m@.neg_risk == raw.neg_risk && m.end_date == readings.end
            && text_option(raw.condition_id) == Some(m@.condition_id) && text_option(raw.slug)
            == Some(m@.slug) && text_option(raw.question) == Some(m@.question),
{
    if raw.closed {
        return None;
    }
    let (id, slug, question, ids) = match (
        &raw.condition_id,
        &raw.slug,
        &raw.question,
        &readings.token_ids,
    ) {
        (Some(id), Some(slug), Some(question), Some(ids)) => (id, slug, question, ids),
        _ => return None,
    };
    if ids.len() != 2 {
        return None;
    }
    let end = match readings.end {
        Some(t) => t,
        None => return None,
    };
    let delta: i64 = end.seconds_since(&now);
    if delta < 0 || delta as u64 > max_horizon_seconds {
        return None;
    }
    if !readings.speaks_of_crypto || !readings.speaks_of_short_life {
        return None;
    }
    Some(
        Market {
            condition_id: id.clone(),
            slug: slug.clone(),
            question: question.clone(),
            yes_token_id: ids[0].clone(),
            no_token_id: ids[1].clone(),
            end_date: Some(end),
            neg_risk: raw.neg_risk,
        },
    )
}

/// The market of a listing, if it is one to follow.
pub fn select_market(raw: &GammaMarketRaw, now: Timestamp, max_horizon_seconds: u64) -> (r: Option<
    Market,
>)
    ensures
        match r {
            Some(m) => market_to_follow(*raw, now@, max_horizon_seconds as int) == Some(m@),
            None => market_to_follow(*raw, now@, max_horizon_seconds as int) is None,
        },
{
    let readings = read_listing(raw);
    judge_listing(raw, &readings, now, max_horizon_seconds)
}

/// The markets of a list that are to be followed, in order.
pub fn select_markets(raw: &Vec<GammaMarketRaw>, now: Timestamp, max_horizon_seconds: u64) -> (r:
    Vec<Market>)
    ensures
        market_views(r@) == markets_to_follow(raw@, now@, max_horizon_seconds as int),
{
    let mut out: Vec<Market> = Vec::new();
    let mut i: usize = 0;
    proof {
        assert(raw@.take(0) =~= Seq::empty());
        assert(market_views(out@) =~= Seq::empty());
    }
    while i < raw.len()
        invariant
            i <= raw@.len(),
            market_views(out@) == markets_to_follow(
                raw@.take(i as int),
                now@,
                max_horizon_seconds as int,
            ),
        decreases raw@.len() - i,
    {
        let ghost before = out@;
        proof {
            assert(raw@.take(i + 1).drop_last() =~= raw@.take(i as int));
            assert(raw@.take(i + 1).last() == raw@[i as int]);
        }
        if let Some(m) = select_market(&raw[i], now, max_horizon_seconds) {
            out.push(m);
            assert(market_views(out@) =~= market_views(before).push(m@));
        }
        i += 1;
    }
    proof {
        assert(raw@.take(raw@.len() as int) =~= raw@);
    }
    out
}

/// A number of seconds as a signed one, wrapping around.
pub open spec fn signed_seconds(seconds: u64) -> int {
    if seconds <= i64::MAX {
        seconds as int
    } else {
        seconds - 0x1_0000_0000_0000_0000
    }
}

/// The last end that a market may have, where it is in range.
pub fn end_of_horizon(now: Timestamp, max_horizon_seconds: u64) -> (r: Option<Timestamp>)
    ensures
        r is Some <==> in_range(later(now@, signed_seconds(max_horizon_seconds))),
        r matches Some(t) ==> t@ == later(now@, signed_seconds(max_horizon_seconds)),
{
    let seconds: i64 = if max_horizon_seconds <= 0x7fff_ffff_ffff_ffff {
        max_horizon_seconds as i64
    } else {
        -((u64::MAX - max_horizon_seconds) as i64) - 1
    };
    now.plus_seconds(seconds)
}

/// Where the list of markets is.
pub fn markets_url(base_url: &str) -> (r: String)
    ensures
        r@ == base_url@ + "/markets"@,
{
    let mut url = base_url.to_string();
    url.append("/markets");
    url
}

/// The views of a list of parameters.
pub open spec fn parameter_views(v: Seq<(&'static str, String)>) -> Seq<(Seq<char>, Seq<char>)> {
    v.map_values(|p: (&'static str, String)| (p.0@, p.1@))
}

/// The parameters that ask for open markets that end between two instants, the
/// soonest first.
pub fn query_parameters(now: Timestamp, end_max: Timestamp, limit: u32) -> (r: Vec<
    (&'static str, String),
>)
    ensures
        parameter_views(r@) == seq![
            ("active"@, "true"@),
            ("closed"@, "false"@),
            ("limit"@, number_digits(limit as int)),
            ("order"@, "endDate"@),
            ("ascending"@, "true"@),
            ("archived"@, "false"@),
            ("end_date_min"@, rfc3339_text(now@)),
            ("end_date_max"@, rfc3339_text(end_max@)),
            ("liquidity_num_min"@, "50"@),
        ],
{
    let mut r: Vec<(&'static str, String)> = Vec::new();
    r.push(("active", "true".to_string()));
    r.push(("closed", "false".to_string()));
    r.push(("limit", number_text(limit as u64)));
    r.push(("order", "endDate".to_string()));
    r.push(("ascending", "true".to_string()));
    r.push(("archived", "false".to_string()));
    r.push(("end_date_min", now.to_rfc3339()));
    r.push(("end_date_max", end_max.to_rfc3339()));
    r.push(("liquidity_num_min", "50".to_string()));
    assert(parameter_views(r@) =~= seq![
        ("active"@, "true"@),
        ("closed"@, "false"@),
        ("limit"@, number_digits(limit as int)),
        ("order"@, "endDate"@),
        ("ascending"@, "true"@),
        ("archived"@, "false"@),
        ("end_date_min"@, rfc3339_text(now@)),
        ("end_date_max"@, rfc3339_text(end_max@)),
        ("liquidity_num_min"@, "50"@),
    ]);
    r
}

/// Law: every market that is followed ends between `now` and the horizon, and
/// its end is known.
pub proof fn followed_markets_end_in_time(
    raw: Seq<GammaMarketRaw>,
    now: int,
    max_horizon_seconds: int,
)
    ensures
        forall|i: int|
            0 <= i < markets_to_follow(raw, now, max_horizon_seconds).len()
                ==> market_ends_in_time(
                #[trigger] markets_to_follow(raw, now, max_horizon_seconds)[i],
                now,
                max_horizon_seconds,
            ),
    decreases raw.len(),
{
    if raw.len() > 0 {
        followed_markets_end_in_time(raw.drop_last(), now, max_horizon_seconds);
        let before = markets_to_follow(raw.drop_last(), now, max_horizon_seconds);
        let after = markets_to_follow(raw, now, max_horizon_seconds);
        assert forall|i: int| 0 <= i < after.len() implies market_ends_in_time(
            #[trigger] after[i],
            now,
            max_horizon_seconds,
        ) by {
            if i < before.len() {
                assert(after[i] == before[i]);
            }
        }
    }
}

/// Law: the markets that are followed are those of the listings that qualify, and
/// no others.
pub proof fn followed_markets_are_listed(
    raw: Seq<GammaMarketRaw>,
    now: int,
    max_horizon_seconds: int,
)
    ensures
        forall|m: MarketView|
            #[trigger] markets_to_follow(raw, now, max_horizon_seconds).contains(m) <==> exists|
                i: int,
            |
                0 <= i < raw.len() && #[trigger] market_to_follow(
                    raw[i],
                    now,
                    max_horizon_seconds,
                ) == Some(m),
    decreases raw.len(),
{
    let after = markets_to_follow(raw, now, max_horizon_seconds);
    if raw.len() > 0 {
        let first = raw.drop_last();
        let before = markets_to_follow(first, now, max_horizon_seconds);
        followed_markets_are_listed(first, now, max_horizon_seconds);
        let found = market_to_follow(raw.last(), now, max_horizon_seconds);
        assert forall|m: MarketView| after.contains(m) <==> before.contains(m) || found == Some(
            m,
        ) by {
            if before.contains(m) {
                let k = choose|k: int| 0 <= k < before.len() && before[k] == m;
                assert(after[k] == m);
            }
            if found == Some(m) {
                assert(after[before.len() as int] == m);
            }
            if after.contains(m) {
                let k = choose|k: int| 0 <= k < after.len() && after[k] == m;
                if k < before.len() {
                    assert(before[k] == m);
                }
            }
        }
        assert forall|m: MarketView|
            #[trigger] after.contains(m) implies exists|i: int|
            0 <= i < raw.len() && #[trigger] market_to_follow(raw[i], now, max_horizon_seconds)
                == Some(m) by {
            if before.contains(m) {
                let i = choose|i: int|
                    0 <= i < first.len() && #[trigger] market_to_follow(
                        first[i],
                        now,
                        max_horizon_seconds,
                    ) == Some(m);
                assert(market_to_follow(raw[i], now, max_horizon_seconds) == Some(m));
            } else {
                assert(market_to_follow(raw[raw.len() - 1], now, max_horizon_seconds) == Some(m));
            }
        }
        assert forall|m: MarketView, i: int|
            0 <= i < raw.len() && #[trigger] market_to_follow(raw[i], now, max_horizon_seconds)
                == Some(m) implies #[trigger] after.contains(m) by {
            if i < first.len() {
                assert(market_to_follow(first[i], now, max_horizon_seconds) == Some(m));
                assert(before.contains(m));
            }
        }
    }
}

/// Law: a market that is followed is the one that its own listing describes: its
/// condition id, slug, question, both assets in order, end and negative-risk flag are
/// those of the listing, whichever way the flag is set.
pub proof fn followed_market_is_its_listing(
    raw: GammaMarketRaw,
    readings: ReadingsView,
    now: int,
    max_horizon_seconds: int,
)
    ensures
        market_on_readings(raw, readings, now, max_horizon_seconds) matches Some(m) ==> {
            &&& raw.condition_id matches Some(id) && m.condition_id == id@
            &&& raw.slug matches Some(slug) && m.slug == slug@
            &&& raw.question matches Some(question) && m.question == question@
            &&& readings.token_ids matches Some(ids) && ids.len() == 2 && m.yes_token_id == ids[0]
                && m.no_token_id == ids[1]
            &&& readings.end matches Some(end) && m.end_date == Some(end)
            &&& raw.neg_risk ==> m.neg_risk
            &&& !raw.neg_risk ==> !m.neg_risk
        },
{
}

/// Law: a listing is followed just where it is open, has its three texts, two assets
/// and an end that can be read, ends no earlier than now and no later than the horizon,
/// and speaks both of a crypto and of a short life.
pub proof fn listings_are_followed_just_where_they_qualify(
    raw: GammaMarketRaw,
    readings: ReadingsView,
    now: int,
    max_horizon_seconds: int,
)
    ensures
        market_on_readings(raw, readings, now, max_horizon_seconds) is Some <==> {
            &&& !raw.closed
            &&& raw.condition_id is Some
            &&& raw.slug is Some
            &&& raw.question is Some
            &&& readings.token_ids is Some
            &&& (readings.token_ids->0).len() == 2
            &&& readings.end is Some
            &&& seconds_between(now, readings.end->0) >= 0
            &&& seconds_between(now, readings.end->0) <= max_horizon_seconds
            &&& readings.speaks_of_crypto
            &&& readings.speaks_of_short_life
        },
{
}

/// Law: what is read out of a listing is what its own texts say: the assets of the list
/// of tokens, the instant of the end date, and whether slug and question, in lower case
/// with a space between, match either pattern.
pub proof fn readings_come_from_the_listing(raw: GammaMarketRaw, now: int, max_horizon_seconds: int)
    ensures
        market_to_follow(raw, now, max_horizon_seconds) == market_on_readings(
            raw,
            readings_of(raw),
            now,
            max_horizon_seconds,
        ),
        raw.clob_token_ids matches Some(t) ==> readings_of(raw).token_ids == json_text_list(t@),
        raw.clob_token_ids is None ==> readings_of(raw).token_ids is None,
        raw.end_date matches Some(t) ==> readings_of(raw).end == rfc3339_instant(t@),
        raw.end_date is None ==> readings_of(raw).end is None,
        raw.slug is Some && raw.question is Some ==> {
            let text = lower_case((raw.slug->0)@) + seq![' '] + lower_case((raw.question->0)@);
            &&& readings_of(raw).speaks_of_crypto <==> regex_verdict(
                "(?i)(bitcoin|btc|ethereum|eth|solana|sol|xrp|dogecoin|doge|bnb|hyperliquid|hype)"@,
                text,
            ) == Some(true)
            &&& readings_of(raw).speaks_of_short_life <==> regex_verdict(
                "(?i)(up[-\\s]*or[-\\s]*down|updown|above|below|reach|hourly|\\b5m\\b|\\b15m\\b|\\b1h\\b|15-min|5-min)"@,
                text,
            ) == Some(true)
        },
{
    reveal_strlit(" ");
    assert(" "@ =~= seq![' ']);
}

/// Law: each listing that qualifies adds its market at the end of the list, and any
/// other adds nothing.
pub proof fn one_more_listing_adds_its_market(
    raw: Seq<GammaMarketRaw>,
    next: GammaMarketRaw,
    now: int,
    max_horizon_seconds: int,
)
    ensures
        markets_to_follow(Seq::empty(), now, max_horizon_seconds) == Seq::<MarketView>::empty(),
        markets_to_follow(raw.push(next), now, max_horizon_seconds) == (match market_to_follow(
            next,
            now,
            max_horizon_seconds,
        ) {
            Some(m) => markets_to_follow(raw, now, max_horizon_seconds).push(m),
            None => markets_to_follow(raw, now, max_horizon_seconds),
        }),
{
    assert(raw.push(next).drop_last() =~= raw);
}

/// Calls `regex::Regex::new` and `is_match`: what an expression matches is left
/// to the name.
#[verifier::external_body]
fn regex_is_match(pattern: &str, text: &str) -> (r: Option<bool>)
    ensures
        r == regex_verdict(pattern@, text@),
{
    regex::Regex::new(pattern).ok().map(|re| re.is_match(text))
}

/// Calls `serde_json::from_str` for a list of texts, whose grammar is left to the
/// name.
#[verifier::external_body]
fn read_text_list(text: &str) -> (r: Option<Vec<String>>)
    ensures
        match r {
            Some(v) => json_text_list(text@) == Some(texts(v@)),
            None => json_text_list(text@) is None,
        },
{
    serde_json::from_str::<Vec<String>>(text).ok()
}

/// Law: a horizon is counted from now on, as far as it is a signed number of seconds.
pub proof fn horizons_are_counted_on(seconds: u64)
    ensures
        seconds <= 0x7fff_ffff_ffff_ffff ==> signed_seconds(seconds) == seconds,
        seconds > 0x7fff_ffff_ffff_ffff ==> signed_seconds(seconds) < 0 && signed_seconds(seconds)
            + 0x1_0000_0000_0000_0000 == seconds,
{
}

} // verus!
