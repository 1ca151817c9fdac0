# mmb

The core of a market-making bot, verified with Verus.

- `src/timeouts` keeps the number of requests to an exchange within its limit: requests that
  were let through, groups of requests reserved ahead, and what both take up of the limit.
  `laws.rs` proves that a manager whose clock does not go back never exceeds it.
- `src/binance.rs` builds the requests that are sent to Binance.
- `src/strategy.rs` decides on which side and at which price a perpetual contract is traded
  against the spot price.
- `src/commission.rs`, `src/settings.rs`, `src/orders.rs`, `src/market.rs` and `src/balance.rs`
  hold fees, settings and the vocabulary of orders and markets.
- `src/decimal.rs` and `src/time.rs` hold numbers and times as plain values; the arithmetic is
  that of `rust_decimal` and `chrono`, called through a few functions whose contracts are
  trusted.

`app/` is ordinary Rust around the library: the network, the clock, the log and the settings
file. `tests/` runs the library.
