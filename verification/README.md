# hl

A command line bot for the Hyperliquid exchange. The library (`src/`) holds
the bot's parsing, bookkeeping and decision logic with contracts checked by
Verus; the binary (`app/`) reads the settings and the command line, talks to
the exchange and does the floating-point price arithmetic.

- `src/text.rs`: trimming, splitting, decimal numbers and substring search
  over characters.
- `src/types.rs`, `src/config.rs`: command-line values (order sizes,
  take-profit / stop-loss values, limit prices, TWAP schedules, scale sizes,
  asset pairs) and the user configuration.
- `src/model.rs`, `src/settings.rs`: the exchange's data model, the asset
  table, position lookups and order type codes.
- `src/helpers.rs`: market context lookup, the limit-chase and trailing
  stop-loss decisions, and the leverage / margin checks.
- `src/hyperliquid/`: asset metadata, open orders by id, order payloads and
  responses, and the hashes that requests are signed over.
- `src/table.rs`: maps kept as lists in which a later entry replaces an
  earlier one.
