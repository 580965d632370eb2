//! What the slug of an up-or-down market says: when it closes and which crypto
//! it follows.
//!
//! Five-minute markets are named `{crypto}-updown-5m-{unix_close}`, and their
//! strike is the price of the crypto 300 seconds before the close.

use crate::text::{
    after_last, all_digits, contains, digits_value, integer_text, lower_case, number_digits,
    numbers_are_read_back, occurs_in, only_digits_are_read, parse_i64, rest_after_last, starts_with,
    to_lowercase, what_follows_the_last_separator,
};
use vstd::prelude::*;

verus! {

/// How long a five-minute market is open, in seconds.
pub const MARKET_SECONDS: i64 = 300;

/// A crypto that the exchange quotes.
#[derive(Debug, Clone, Copy, PartialEq, Eq, Structural)]
pub enum Product {
    Btc,
    Eth,
    Sol,
    Xrp,
}

impl Product {
    /// The name under which the exchange quotes the product.
    pub open spec fn name(self) -> Seq<char> {
        match self {
            Product::Btc => "BTC-USD"@,
            Product::Eth => "ETH-USD"@,
            Product::Sol => "SOL-USD"@,
            Product::Xrp => "XRP-USD"@,
        }
    }

    /// The name under which the exchange quotes the product.
    pub fn id(self) -> (r: &'static str)
        ensures
            r@ == self.name(),
    {
        match self {
            Product::Btc => "BTC-USD",
            Product::Eth => "ETH-USD",
            Product::Sol => "SOL-USD",
            Product::Xrp => "XRP-USD",
        }
    }
}

/// The product that a slug in lower case names: the first of the four whose
/// ticker starts it or whose name stands in it.
pub open spec fn product_named(slug: Seq<char>) -> Option<Product> {
    if "btc-"@.is_prefix_of(slug) || occurs_in("bitcoin"@, slug) {
        Some(Product::Btc)
    } else if "eth-"@.is_prefix_of(slug) || occurs_in("ethereum"@, slug) {
        Some(Product::Eth)
    } else if "sol-"@.is_prefix_of(slug) || occurs_in("solana"@, slug) {
        Some(Product::Sol)
    } else if "xrp-"@.is_prefix_of(slug) || occurs_in("xrp"@, slug) {
        Some(Product::Xrp)
    } else {
        None
    }
}

/// The name of the product that a slug names, in any letter case.
pub open spec fn product_of_slug(slug: Seq<char>) -> Option<Seq<char>> {
    match product_named(lower_case(slug)) {
        Some(p) => Some(p.name()),
        None => None,
    }
}

/// The close, in Unix seconds, that ends a slug.
pub open spec fn close_of_slug(slug: Seq<char>) -> Option<int> {
    integer_text(after_last(slug, '-'), i64::MIN as int, i64::MAX as int)
}

/// When a five-minute market that closes at `unix_close` opened, and its strike
/// was set.
pub fn strike_time_for_5m_market(unix_close: i64) -> (r: i64)
    requires
        unix_close - MARKET_SECONDS >= i64::MIN,
    ensures
        r == unix_close - MARKET_SECONDS,
        unix_close - r == 300,
{
    unix_close - MARKET_SECONDS
}

/// Reads the close of a market off its slug: `btc-updown-5m-1778621400` closes
/// at 1778621400. A hyphen only separates, so the close is never negative.
pub fn parse_unix_close_from_slug(slug: &str) -> (r: Option<i64>)
    ensures
        match r {
            Some(v) => close_of_slug(slug@) == Some(v as int) && v >= 0,
            None => close_of_slug(slug@) is None,
        },
{
    let tail = rest_after_last(slug, '-');
    proof {
        lemma_no_separator(slug@, '-');
        let t = after_last(slug@, '-');
        if all_digits(t) {
            lemma_digits_value_nonnegative(t);
        }
        if t.len() > 0 && all_digits(t.drop_first()) {
            lemma_digits_value_nonnegative(t.drop_first());
        }
    }
    parse_i64(tail.as_str())
}

proof fn lemma_no_separator(s: Seq<char>, sep: char)
    ensures
        forall|i: int| 0 <= i < after_last(s, sep).len() ==> after_last(s, sep)[i] != sep,
    decreases s.len(),
{
    if s.len() > 0 && s.last() != sep {
        let rest = after_last(s.drop_last(), sep);
        lemma_no_separator(s.drop_last(), sep);
        assert forall|i: int| 0 <= i < after_last(s, sep).len() implies after_last(s, sep)[i]
            != sep by {
            if i < rest.len() {
                assert(rest.push(s.last())[i] == rest[i]);
            }
        }
    }
}

proof fn lemma_digits_value_nonnegative(s: Seq<char>)
    requires
        forall|i: int| 0 <= i < s.len() ==> crate::text::is_digit(#[trigger] s[i]),
    ensures
        digits_value(s) >= 0,
    decreases s.len(),
{
    if s.len() > 0 {
        lemma_digits_value_nonnegative(s.drop_last());
        assert(crate::text::is_digit(s.last()));
    }
}

/// The product that a slug in lower case names.
pub fn product_from_lower(slug: &str) -> (r: Option<Product>)
    ensures
        r == product_named(slug@),
{
    if starts_with(slug, "btc-") || contains(slug, "bitcoin") {
        Some(Product::Btc)
    } else if starts_with(slug, "eth-") || contains(slug, "ethereum") {
        Some(Product::Eth)
    } else if starts_with(slug, "sol-") || contains(slug, "solana") {
        Some(Product::Sol)
    } else if starts_with(slug, "xrp-") || contains(slug, "xrp") {
        Some(Product::Xrp)
    } else {
        None
    }
}

/// The product that a slug names: `btc-updown-5m-...` follows `BTC-USD`.
pub fn product_id_from_slug(slug: &str) -> (r: Option<&'static str>)
    ensures
        match r {
            Some(id) => product_of_slug(slug@) == Some(id@),
            None => product_of_slug(slug@) is None,
        },
{
    let lower = to_lowercase(slug);
    match product_from_lower(lower.as_str()) {
        Some(p) => Some(p.id()),
        None => None,
    }
}

/// Law: a slug that starts with a ticker or holds the name of a crypto follows the product
/// of that crypto against the dollar: Bitcoin before Ether, Ether before Solana, Solana
/// before XRP; any other slug follows none.
pub proof fn slugs_name_their_product(slug: Seq<char>)
    ensures
        ({
            let lower = lower_case(slug);
            let bitcoin = "btc-"@.is_prefix_of(lower) || occurs_in("bitcoin"@, lower);
            let ether = "eth-"@.is_prefix_of(lower) || occurs_in("ethereum"@, lower);
            let solana = "sol-"@.is_prefix_of(lower) || occurs_in("solana"@, lower);
            let ripple = "xrp-"@.is_prefix_of(lower) || occurs_in("xrp"@, lower);
            &&& product_of_slug(slug) == Some("BTC-USD"@) <==> bitcoin
            &&& product_of_slug(slug) == Some("ETH-USD"@) <==> !bitcoin && ether
            &&& product_of_slug(slug) == Some("SOL-USD"@) <==> !bitcoin && !ether && solana
            &&& product_of_slug(slug) == Some("XRP-USD"@) <==> !bitcoin && !ether && !solana
                && ripple
            &&& product_of_slug(slug) is None <==> !bitcoin && !ether && !solana && !ripple
        }),
{
    reveal_strlit("BTC-USD");
    reveal_strlit("ETH-USD");
    reveal_strlit("SOL-USD");
    reveal_strlit("XRP-USD");
    assert("BTC-USD"@[0] == 'B');
    assert("ETH-USD"@[0] == 'E');
    assert("SOL-USD"@[0] == 'S');
    assert("XRP-USD"@[0] == 'X');
}

/// Law: a slug that ends in a hyphen and a number closes at that second, whatever stands
/// before; one whose end is no number has no close.
pub proof fn slugs_end_in_their_close(head: Seq<char>, n: int, tail: Seq<char>)
    requires
        0 <= n,
        !tail.contains('-'),
    ensures
        n <= i64::MAX ==> close_of_slug(head.push('-') + number_digits(n)) == Some(n),
        n > i64::MAX ==> close_of_slug(head.push('-') + number_digits(n)) is None,
        tail.len() == 0 ==> close_of_slug(head.push('-') + tail) is None,
        tail.len() > 0 && tail[0] != '+' && (exists|i: int|
            0 <= i < tail.len() && !('0' <= #[trigger] tail[i] && tail[i] <= '9'))
            ==> close_of_slug(head.push('-') + tail) is None,
        close_of_slug(head.push('-') + tail) matches Some(v) ==> v >= 0,
{
    let digits = number_digits(n);
    numbers_are_read_back(n, i64::MIN as int, i64::MAX as int);
    assert(!digits.contains('-')) by {
        if digits.contains('-') {
            let i = choose|i: int| 0 <= i < digits.len() && digits[i] == '-';
            assert(crate::text::is_digit(digits[i]));
        }
    }
    what_follows_the_last_separator(head, digits, '-');
    what_follows_the_last_separator(head, tail, '-');
    only_digits_are_read(tail, '0', i64::MIN as int, i64::MAX as int);
    if tail.len() > 0 {
        assert(tail[0] != '-') by {
            assert(tail.contains(tail[0]));
        }
        if all_digits(tail) {
            lemma_digits_value_nonnegative(tail);
        }
        if all_digits(tail.drop_first()) {
            lemma_digits_value_nonnegative(tail.drop_first());
        }
    }
}

} // verus!
