# polymarket_rust_rl

A Polymarket trading bot whose building blocks are proved correct with Verus.

## Layout

- `src/` — the verified library.
  - `spsc` — bounded FIFO ring over a power-of-two number of slots
    (`try_push`, `try_pop`, `push_overwrite`, `drain_into`), viewed as a
    sequence of queued items.
  - `seqlock`, `seg_lock` — sequence-numbered parameter cells.
  - `controller` — one queue per core, parameter publication, routing,
    broadcast and signal collection.
  - `reconnect` — the back-off and give-up rule of the websocket feeds.
  - `chainlink`, `exchange_ws`, `polymarket_ws`, `polymarket_rest` —
    subscription messages, request signing (hex and base64 encoders),
    HTTP status classification, and the rules that pick trades, book
    updates and oracle reports out of incoming messages.
  - `json` — a JSON value type with member lookup, and the compact JSON
    form of a list of strings.
  - `crypto`, `text` and the wrappers in `json` and `exchange_ws` — the
    calls into `hmac`/`sha2`, `serde_json` and std whose contracts are
    trusted.
- `tests/` — tests of the library.
- `app/` — the bot itself: configuration loading, reading JSON text,
  websocket and HTTP I/O,
  and the floating-point strategy (Bayesian estimate, Kelly sizing, linear
  policy with TD(0) learning, signal aggregation, analytics).
