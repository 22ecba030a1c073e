# sidecheck

A timing side-channel auditor for your own HTTP services: it sends a
wrong and a correct secret in randomly interleaved blocks, compares the
two response-time distributions, and reports whether the endpoint leaks
how much of the secret was right.

## Layout

- `src/` is the library, written in Verus and verified: the request
  schedule (`sampler`), sample-size planning (`plan`), verdicts
  (`verdict`, `doctor`), the injection point and request body
  (`injection`), argument parsing (`args`, `text`), the plain-text and
  colored reports (`report`, `render`) and the terminal layouts they use
  (`style`, with `ansi` describing what styled text looks like to a
  terminal). The outside crates it calls (console, rand, serde_json) sit
  behind small trusted wrappers whose contracts state what the library
  relies on.
- `app/` is the command-line program: argument handling with clap, the
  HTTP client, timing, the floating-point statistics, file export and
  printing.
- `tests/` runs the library on concrete values.
