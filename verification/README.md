# pulsar

The verified core of the Pulsar payment platform, written in Verus.

## Layout

- `src/contract/` — the payment-processing contract as a state machine:
  merchants, signed payments, refunds, multi-signature payments, paginated
  history, statistics, cleanup, the audit log and data-quality checks.
  Every entry point either fails and leaves the state as it was, or applies
  its whole effect: storage updates, the token transfers it asks for, and the
  events it publishes. `laws.rs` states what holds across entry points.
- `src/idempotency.rs`, `src/reconciliation.rs`, `src/refund_management.rs`,
  `src/merchant.rs`, `src/search.rs`, `src/rate_limiting.rs`, `src/batch.rs`,
  `src/subscription.rs`, `src/analytics.rs` — the off-chain services.
- `src/table.rs`, `src/sort.rs`, `src/text.rs`, `src/retry.rs` — shared
  building blocks: keyed tables, stable sorting, string operations, back-off.
- `src/clock.rs` — the clocks, the calendar and UUID generation of the
  outside world, with what is assumed of each, and `UtcTime`, an instant
  to the nanosecond.
- `app/` — database access (sqlx), timers (tokio), environment
  configuration, serialisation (serde), and the floating-point token buckets
  of the rate limiter.
- `tests/` — scenarios run against the compiled library.

Addresses and identifiers are held as text. Subscription, invoice and
job-status times are UTC instants to the nanosecond; the contract, the
refund service and reconciliation reports keep Unix seconds, as the ledger
and the services themselves do.
