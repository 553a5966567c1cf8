# wallet_api

A wallet API server and a client of a long-polling configuration service, with their
logic verified in Verus.

- `src/` is the verified library:
  - `text`: white space, trimming, splitting, decimal text of numbers and its parsing.
  - `sql`: SELECT statements built with `sql_builder`, the filter values and the
    `BaseModel` trait.
  - `model`: the database rows and their queries.
  - `keyed`: a map keyed by `(data id, group id)` that keeps insertion order.
  - `acm`: the configuration client: request building and signing, the server list,
    subscriptions, and the steps of the listener (first reads, the probe, change
    notices, passing changes on).
  - `api`: routing, required parameters and error answers of the HTTP API, and the
    WebSocket echo rule.
  - `service`: the steps of the cached user lookup.
  - `async_init`: the names and the per-thread cache behind the `async_init` attribute.
- `app/` is the program around it: HTTP with tide and reqwest, MySQL with sqlx, redis,
  WebSockets, channels and the listener loop.
- `tests/` runs the library on concrete values.
