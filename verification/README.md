# just_etf

A market data provider for exchange traded funds: quotes, historical prices, dividends and
profiles from justETF, looked up by ISIN, and the schedule on which asset profiles are enriched.

- `src/` is the library. It says what to request, what to do with what comes back, and what to
  make of it; every function is proved against its contract with Verus.
- `app/` runs it: HTTP clients, JSON, floating-point numbers, tasks and timers.
- `tests/` runs the library together with the crates that it calls.

What the library has from other crates stands behind a few functions whose contracts are trusted:
HTML selection (`src/html.rs`), dates and the clock (`src/time.rs`), printed HTTP statuses
(`src/fetch.rs`) and Unicode lower case (`src/text.rs`).
