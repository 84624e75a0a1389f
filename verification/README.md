# ble_session

State tracking for a Bluetooth Low Energy session, verified with Verus.

- `src/` is the verified library. A `Session` takes in what a platform backend
  reports (`handle_platform_event`), keeps one state per peripheral, and says
  which events an application is to be told. It also decides on requests to
  start and to stop scanning (`start_scanning`, `stop_scanning`, `complete`).
  `laws.rs` states what holds over all reports: a peripheral is introduced
  once, as soon as its address and its name are known; its address never
  changes; its connection events alternate. `scan_laws.rs` states what holds
  over all requests to scan, concurrent ones included: the platform is asked in
  turn, and the requests that it grants alternate.
- `app/` runs a session on tokio. Platform backends implement `PlatformSession`
  and are opened through `PlatformBackends`.
- `tests/` runs the library on concrete reports.

The library trusts `dashmap::DashMap`, through the contracts in `registry.rs`.
