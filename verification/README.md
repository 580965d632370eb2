# bot_polymarket_rust

A bot for binary crypto markets on Polymarket, with its rules proved in Verus.

A binary market pays one dollar for exactly one of its two outcomes. If a share of
each costs less than a dollar, fees and all, buying both is a sure gain. The bot
follows the order books of short-lived crypto markets and looks for that, and for
two more offers:

- **A** buys the outcome that the exchange price of the crypto is moving towards.
- **B** buys both outcomes, behind filters against offers that are not what they seem.
- **C** is B with a model of the exchange price as a veto.

## Layout

`src/` is the verified library.

| Module | What it is about |
| --- | --- |
| `decimal`, `double`, `timestamp`, `text`, `json`, `string_map` | values |
| `types`, `market_index`, `book_state`, `fees` | markets, books and fees |
| `bilateral` | the plain arbitrage |
| `strategies` | A (`lag_arb`), B (`bilateral_pure`), C (`hybrid`) |
| `gamma`, `poly_ws`, `cex_feed`, `session` | discovery, feeds, reconnecting |
| `pricing_model` | what the slug of a market says |
| `config`, `cli` | settings and commands |
| `runner`, `trinity_runner`, `live_runner` | what each run does on an update |
| `live`, `tp_manager`, `recorder` | limits on trades, take-profit orders, records |

`app/` is the program around it: sockets, files, the clock of the runs, the
exchange's client, and the figures that are worked out in floating point.
`app/exchange.rs` needs two things that `Cargo.toml` leaves out: the exchange's client
crate, `polymarket_client_sdk_v2`, and the feature `signer-local` of `alloy`. They
bring some hundred more packages, none of which the library or its tests use.

`tests/` holds tests of the library.

## What is proved

Contracts speak of exact decimal numbers. A `Decimal` is a mantissa over a power of
ten, as in the `rust_decimal` crate, which does the arithmetic; a contract names
that crate's result and states its value, which is the exact one, rounded half to
even to the most decimals that fit. Where a figure would overflow,
functions say so instead of panicking.

Public proof functions state what holds of the library as a whole: an opportunity
costs less than it pays, C enters only where B does, an admitted trade keeps the
limits, strategy A does not enter a market twice within its window, and others.
Their doc comments start with `Law:`.
