# leptos_ws_pro

A WebSocket toolkit for Leptos applications — codecs, RPC with request
correlation, security checks, resilience, performance helpers, monitoring
and collaborative editing — whose logic is written in Verus and proved
against its contracts.

## Layout

- `src/` — the verified library. Each module states what its functions
  return and change over mathematical models (`Seq`, `Map`, integers), and
  public proof functions state the laws that relate several calls. Times
  are milliseconds since the UNIX epoch (nanoseconds for the profilers'
  samples); functions that read the clock have an `_at` twin that takes the
  time as an argument, and state what they do for some reading of it.
- `tests/` — tests of the library on concrete values.
- `app/` — what the library leaves to its callers: serde forms of its
  types, the async loops that carry out its recovery and reconnection
  decisions, and the monitoring parts that compute with floating point.
