# hft-clob-core

A single-symbol central-limit-order-book matching engine whose behaviour is
stated in contracts and proved with Verus.

## Layout

| Path | Contents |
|------|----------|
| `src/domain/` | Newtypes, enumerations with stable codes, constants, the `Clock` and `IdGenerator` traits |
| `src/wire/` | Framing and the payload of every message, to the byte |
| `src/matching/` | The book: price-time priority, self-trade prevention, amendments |
| `src/risk.rs` | Kill switch, price band, per-account caps |
| `src/engine/` | The pipeline, the engine, clocks, id counters, replay |
| `src/marketdata/` | Outbound encoder and sinks |
| `src/gateway/` | Recording format and the decisions of a session |
| `src/client.rs` | The client's side of the wire |
| `src/workload.rs`, `src/fixture.rs` | Synthetic load and the replay fixture |
| `app/` | TCP listener and client, recorder, command line, load tests |

`src/engine/model.rs` says what every command does to the market and which
events it gives rise to; `Engine::step` is proved to do exactly that. What
holds of all commands is in `src/engine/laws.rs`, `src/engine/order_laws.rs`,
`src/engine/l2.rs`, and over whole runs of commands in `src/engine/runs.rs` and
`src/engine/mirror.rs`; what holds of the book alone is in
`src/matching/laws.rs`, and what holds of a session in
`src/gateway/session_laws.rs`. Every encoder is proved to be undone by its decoder,
and every payload that decodes is the encoding of its message.

Only the reading of the system clock is taken on trust.
