# validator_metrics

Metrics and request coordination of a validator's RPC service, verified with Verus.

- `src/pull_metrics.rs`, `src/exposition.rs`, `src/rpc_methods.rs`, `src/text.rs`: the
  counters of the metrics route, the catalog of RPC methods, and the text of a scrape.
- `src/registry.rs`: the place where a process keeps its metrics.
- `src/moving_stat.rs`, `src/token_counter.rs`: smaller counters.
- `src/accounts.rs`, `src/clock.rs`, `src/largest_accounts_cache.rs`: the answers to
  largest-accounts requests, kept for a limited time.
- `src/abort_flag.rs`, `src/generation.rs`, `src/outcome_channel.rs`, `src/singleflight.rs`: one
  computation at a time for each filter of a largest-accounts request.
- `src/metrics_laws.rs`, `src/series_laws.rs`, `src/singleflight_laws.rs`: what holds across
  several operations.

The functions that change something take `&mut self`, and their contracts say exactly what
changes. `app/` shares these values between threads, writes times as numbers of seconds,
sends datapoints, and waits for outcomes.
