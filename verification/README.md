# kemuri

The core of a network monitor: identifiers and durations, probe
configurations and their resolution, the outcome of ICMP, TCP, HTTP and DNS
probes, latency histograms and the sample blobs that store them, rollups
over time buckets, the alert state machine with its hysteresis and
notification backoff, the scheduler's timing decisions, and the answers of
the HTTP API. Each function states its behaviour in `requires` / `ensures`
contracts, and Verus proves the code against them.

## Layout

- `src/` is the verified library. Laws that relate several functions stand
  there as public proof functions named `law_*`. Calls into `sha2`, `hex`,
  `chrono`, `rand`, `url`, `uuid` and `serde_json`, and the few parts of
  `std` that Verus has no specification for, go through small trusted
  wrappers whose doc comments say what they assume of the outside code.
- `tests/` runs the library on concrete values.
- `app/` is the command-line program around the library: reading the YAML
  configuration, the `doctor` checks, a TCP check, and the arithmetic that
  works on floating-point numbers (latency quantiles, ratios and alert
  thresholds), which the verifier does not cover.
