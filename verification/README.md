# opc_da

The decision logic of an OPC DA (Data Access) client and server toolkit,
written in Verus: every function in `src/` carries a contract that Verus
proves, and the properties that span several operations are stated as proof
functions (`lemma_*`).

## Layout

- `src/client/` — the client side: result types, assembly of per-item
  results from server replies (`assemble`), the address-space walk
  (`browse`, a state machine driven by the browse calls' replies), server
  enumeration and connector settings (`connector`), the retry and
  health-monitor decisions of the COM worker (`worker`), and the
  push/poll decisions of the fusion reader (`fusion`).
- `src/server/` — the server side: the namespace and the built-in data
  source (`data_source`), a group's item registry and state (`group`),
  connection points and snapshot enumerators (`connection`), the push
  scheduler (`scheduler`), COM registration keys (`registry`), GUID
  comparison (`guid`) and the server status report (`status`).
- `src/sim/` — the simulation server: its tag table and namespace tree
  (`tags`), waveforms (`waveform`), data source (`data_source`) and
  start-up settings (`runtime`).
- `src/desktop/` — the desktop front end's session state and payloads.
- `src/stress.rs` — the load test's options and per-client item lists.
- `src/text.rs`, `src/hresult.rs` — decimal text, string helpers and COM
  status codes shared by the rest.
- `app/` — plain Rust around the library: the clock, the files and
  environment read at start-up, the JSON payload types of the desktop view,
  the reconnect loop and one health-monitor scan, and the floating-point
  conversions.  The COM loops that would drive the browse walk, the fusion
  reader and the server objects are not here: they need the Windows COM
  bindings, which this build does not have.
- `tests/` — tests of the library, run against the compiled crate.
