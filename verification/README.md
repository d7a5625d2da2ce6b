# mmb

Verified core of a market-making engine, written in Verus.

- `src/order_book_data.rs`, `src/order_book_event.rs`: order book sides as price
  levels, their updates (a zero amount removes a level), and the events that
  carry snapshots and updates.
- `src/request_type.rs`: the kinds of requests sent to an exchange.
- `src/time.rs`, `src/trigger_scheduler.rs`: instants and spans, and the triggers
  that wait for the available requests count to recover — which handlers run,
  and after what wait.
- `src/decimal.rs`, `src/symbol.rs`, `src/serum_market.rs`, `src/serum_support.rs`,
  `src/text.rs`: reading Serum market and mint accounts, the symbol limits that
  follow from them, the published market list read from its JSON response, and
  the unified-to-specific currency pairs.
- `app/`: the runtime around the library — chrono conversions, tasks that sleep
  and call trigger handlers, and the account requests between the steps of
  reading the markets.
- `tests/`: tests of the library on concrete values.
