# sinan_store

The rules of a trading system's state store, proved with Verus: what is written
down, what counts as a repetition and what as a conflict, how sessions,
deliveries, plans and reconciliation runs move from state to state, and what
their readers see.

- `src/` is the library. Its functions take records and rows as plain values and
  return what is to be written. Each states in its contract what it returns and
  every reason for which it refuses.
- `tests/` runs the library on values.
- `app/` keeps the records in SQLite. It reads rows, asks the library and writes
  what the library returns, inside one transaction.

## Modules

| Module | About |
| --- | --- |
| `text`, `numbers`, `columns`, `error` | values as columns hold them, and the errors of reading them |
| `json` | canonical JSON and its digest |
| `domain`, `model`, `trading` | the vocabulary and the records |
| `sessions`, `selection`, `deliveries`, `attempts`, `wire` | execution clients and what is sent to them |
| `plans`, `lifecycle`, `risk`, `commands`, `workflow`, `workflow_records` | from an intent to its commands |
| `core_events`, `event_stream`, `transport_events`, `circuit_breaker` | facts and streams |
| `snapshots`, `latest`, `projection`, `ingest`, `rebuild`, `evidence`, `convergence` | the newest observations and how they follow from the facts |
| `reconciliation`, `reconciliation_rows`, `checkpoint`, `integrity` | agreement with the brokers |
| `inbound_durability`, `outbound_work` | queues that are worked off under leases |
| `listing`, `latest_state`, `control_plane`, `transaction_snapshot`, `risk_snapshot`, `risk_capacity` | what readers are shown and what decisions rest on |
| `readback` | what is written down is read back |
| `options`, `migrations` | opening a database |

What is taken on trust is the behaviour of `serde_json`, of `sha2` and of two
functions of the standard library, stated at the few items of `json` and `text`
that call out of the library.
