# elara

The decision logic of the ELARA runtime and its test harnesses, written in
Verus and proved against its contracts.

- `src/` is the verified library: health results and their aggregation, the
  health cache and configuration, the health response body; counters, gauges,
  histogram counts, the metrics registry and its Prometheus text; the STUN
  wire format and client steps; feed items; the event block wire format; the
  perceptual clock; the packet queue of the simulated hostile link; the plan
  of the UDP network test; the tallies of the harnesses. `src/laws.rs` states
  the properties that span several calls.
- `app/` is the runtime around it: locks and clocks, sockets and HTTP
  servers, the logging and OpenTelemetry subscribers, and the
  floating-point parts (histogram bounds, jitter and loss draws).
- `tests/` runs the library on concrete values.
