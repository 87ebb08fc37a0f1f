# bencher

A benchmark driver for serverless platforms (OpenWhisk and Waverless). It
calls a configured function, measures the latency of each stage of the call,
and records or aggregates the results.

- `src/` is the verified library: command-line interpretation, configuration
  resolution (replicas, argument overrides, the object-store switch), request
  argument preparation, large-input and data-preparation plans, platform
  argument and URL construction, metrics and their aggregation, log filtering.
- `app/` is the program around it: argument parsing, file, process and network
  I/O, the object store, clocks, random request schedules and concurrency.
- `tests/` runs the library on concrete values.
