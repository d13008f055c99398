# cherenkov

The core of the Cherenkov radiation monitoring system as a Verus library:
ingestion (feed parsing, deduplication, batching, circuit breaking, dead
letters), storage routing and archives, API authentication and access
policies, WebSocket connection handling, notifications, and the model
registry and classification cache of the machine-learning side.

- `src/` is the verified library. Public functions state in `ensures` what
  they return or change, except where the result is an opaque value of an
  outside crate (a broadcast receiver, a live subscriber count) or a unit
  value; the `law_*` proof functions state what holds across operations. Calls into outside crates (`regex`, `dashmap`,
  `lru`, `uuid`, `chrono`, `tokio`, `serde_json`) go through small trusted
  wrappers whose doc comments say what is assumed of them.
- `tests/` runs the library on concrete values.
- `app/` is a command-line front end: it reads feed files, drives the batch
  writer, issues and checks API tokens, and holds what works on
  floating-point values, metrics and rate limiters.
