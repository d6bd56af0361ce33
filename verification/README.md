# nautilus_coinbase

A Coinbase Advanced Trade market-data adapter whose core is verified with Verus.

## Layout

- `src/` — the verified library.
  - `string` — API key masking, snake case conversion, semantic versions, small text helpers.
  - `decimal`, `model` — decimal strings, fixed-point prices and quantities, and the market
    data records (instruments, trades, quotes, bars, book deltas, depth snapshots).
  - `common` — Coinbase enumerations and their wire names, bar type to candle granularity,
    credentials and ES256 JSON Web Tokens.
  - `http` — REST response models, their conversion into instruments and market data, and
    request construction (URLs, token claims, paths, queries, response status rules).
  - `websocket` — WebSocket message models, their conversion into market data, and the feed
    handler state machine (instrument cache, bar type registry, output buffer).
  - `sbe` — the binary codec of book orders, deltas, delta batches and depth snapshots,
    with its round-trip laws.
- `tests/` — tests of the library.
- `app/` — what runs around the library: JSON forms of the wire messages, credentials from
  the environment, the WebSocket event loop, and REST calls over a caller-supplied transport.

Outside crates (`rust_decimal`, `chrono`, `ahash`, `base64`, `pem`, `serde_json`,
`aws-lc-rs`) are called from the library through small trusted wrappers, each documented
with what its contract claims.
