# ibex_benchmark_bot

A GitHub App that publishes benchmark history to the IBEX harness repository
and keeps one branded, suite-aware sticky comment on pull requests.

- `src/` is the library, verified with Verus: dispatch verification, artifact
  extraction and validation, the replay guard, markdown sanitising, the sticky
  comment (suite metadata, verdict, matrix, marked sections) and data-PR
  bodies, GitHub request shapes, and the publish run as a state machine.
- `app/` is the command-line program around it: argument handling, HTTP calls,
  JSON decoding, App token minting and the formatting of floating-point
  figures, which the library takes as ready-made text.
- `tests/` exercise the library through its public API.
