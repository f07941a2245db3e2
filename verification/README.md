# cyberbeast

Host side of the CyberBeast motor protocol (29-bit CAN), verified with Verus.

- `src/` is the library. It decides and computes, and does no input or output: frames and
  times are handed in, frames to send are handed out. Floats are carried as IEEE 754 bit
  patterns. What takes several frames (reading a parameter, transferring the endpoint
  descriptor, warming up a link) is a step function that says what to do next.
- `app/` is the command-line tool and the C interface: SocketCAN, the clock, waiting, and the
  floating-point scaling between field counts and physical units.
- `tests/` runs the library, among other things against an emulated device that loses frames.

Modules of the library, from the bottom up: `text`, `error`, `values` (typed parameter
values), `json`, `endpoint_map` (the table a device reports of itself), `protocol` (frames),
`descriptor` (transfer of that table), `param_cache` (answers to parameter requests),
`models`, `motor`, `controller`, `registers`, `report` (lines for the user), `cli` (rules
of the command-line tool) and `loops` (how its modes run).

Three things are believed without proof: what `serde_json` makes of a JSON text and how its
values are read (`json`), `str::to_lowercase` (`endpoint_map`) and `String::from_utf8`
(`descriptor`).
