# metrique

Building blocks of a metrics library, verified with Verus.

`src/` is the verified library:

- `case_convert`, `inflect`, `namestyle`, `concat`: metric-name case
  conversion, name styles, and strings known at the type level (short
  concatenations are interned once, through the `ustr` crate, and shared).
- `attrs`: which options of a metrics container and of its fields may be
  combined, and what a valid set of them means.
- `metrics_pool`: prefixes of pooled child metrics, and which of several
  writes of one field name survives.
- `timesource`, `fakes`, `tokio_time`: time sources and the override that
  selects one.
- `atomics`, `close_value`: counters and the closing of values into metric
  values.
- `cloudwatch`: splitting formatted entries into log events and batching
  them within the CloudWatch Logs `PutLogEvents` limits.
- `otel`, `otel_aggregate`, `units`: OpenTelemetry instrument kinds,
  aggregation accumulators, log records, and unit names.
- `rate_limit`: the decision of a cross-thread limiter that lets a noisy
  call through at most once per interval.
- `reporters`: configuration of the periodic system and runtime reporters
  and the aggregation of disk and network samples.
- `text`: the character and string operations of `std` that the rest uses,
  with their contracts.

`app/` holds the runtime glue that Verus does not check: thread-local and
process-wide state, background tasks, and the calls that read the system or
talk to CloudWatch Logs and OpenTelemetry.

`tests/` exercises the library on concrete values.
